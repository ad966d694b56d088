//! The commands of the device: their numbers, the records that go with them, and
//! the requests that carry them.

use crate::abi::{
    PolarisBlockGetStateArg, PolarisProbeRmCopyArg, PolarisProbeRmPhysArg,
    PolarisRegisterBlockBackingArg, PolarisRegisterBlockMappingArg, PolarisRegisterStaticBlockArg,
    PolarisRegisterVaSpaceArg, PolarisRmCopyArg, PolarisSessionBranchArg, PolarisSpillBlockArg,
    PolarisUnmapBlockMappingsArg, PolarisUnmapStaticBlockArg, PolarisUnregisterVaSpaceArg,
};
use crate::errno::EIO;
use crate::layout::{fields_wf, record_size, size_of, Field};
use vstd::prelude::*;

verus! {

/// The letter of the device's commands.
pub const MAGIC: u32 = 0x50;

/// The command hands its record to the device.
pub const DIR_WRITE: u32 = 1;

/// The command hands its record to the device and takes it back.
pub const DIR_READ_WRITE: u32 = 3;

/// The number of a command: direction, size of the record, letter and number.
pub open spec fn encoded(dir: u32, ty: u32, nr: u32, size: u32) -> u32 {
    (dir << 30) | (size << 16) | (ty << 8) | nr
}

/// The number of a command: direction, size of the record, letter and number.
pub fn ioc(dir: u32, ty: u32, nr: u32, size: u32) -> (r: u32)
    ensures
        r == encoded(dir, ty, nr, size),
{
    (dir << 30) | (size << 16) | (ty << 8) | nr
}

/// Each part of a command's number can be read back from it.
pub proof fn law_command_parts_read_back(dir: u32, ty: u32, nr: u32, size: u32)
    requires
        dir < 4,
        ty < 0x100,
        nr < 0x100,
        size < 0x4000,
    ensures
        encoded(dir, ty, nr, size) >> 30 == dir,
        (encoded(dir, ty, nr, size) >> 16) & 0x3fff == size,
        (encoded(dir, ty, nr, size) >> 8) & 0xff == ty,
        encoded(dir, ty, nr, size) & 0xff == nr,
{
    let c = encoded(dir, ty, nr, size);
    assert(c >> 30 == dir && (c >> 16) & 0x3fff == size && (c >> 8) & 0xff == ty && c & 0xff == nr)
        by (bit_vector)
        requires
            c == (dir << 30) | (size << 16) | (ty << 8) | nr,
            dir < 4,
            ty < 0x100,
            nr < 0x100,
            size < 0x4000,
    ;
}

/// A command of the device.
#[derive(Clone, Copy, PartialEq, Eq, Structural, Debug)]
pub enum Command {
    RegisterGpu,
    RegisterVaRange,
    SessionCreate,
    SessionDestroy,
    SessionGetStats,
    SessionBranch,
    BlockReserve,
    BlockRelease,
    BlockTouch,
    BlockGetState,
    GetDecision,
    CompleteOperation,
    GetGlobalStats,
    ListSessions,
    SetPolicy,
    RegisterVaspace,
    UnregisterVaspace,
    RegisterStaticBlock,
    UnmapStaticBlock,
    RegisterBlockMapping,
    UnmapBlockMappings,
    SpillBlock,
    RegisterBlockBacking,
    ProbeRmPhys,
    ProbeRmCopy,
    RmCopy,
}

/// One element of a size that is also its alignment.
pub open spec fn one(size: usize) -> Field {
    Field { size, align: size, count: 1 }
}

/// So many elements of a size that is also their alignment.
pub open spec fn many(size: usize, count: usize) -> Field {
    Field { size, align: size, count }
}

/// Add fields of one element.
pub fn push_ones(fields: &mut Vec<Field>, size: usize, n: usize)
    ensures
        final(fields)@ == old(fields)@ + Seq::new(n as nat, |i: int| one(size)),
{
    let ghost start = fields@;
    let mut i: usize = 0;
    while i < n
        invariant
            i <= n,
            fields@ == start + Seq::new(i as nat, |k: int| one(size)),
        decreases n - i,
    {
        fields.push(Field { size, align: size, count: 1 });
        i += 1;
        assert(fields@ =~= start + Seq::new(i as nat, |k: int| one(size)));
    }
}

impl Command {
    /// The number of the command among the device's commands.
    pub open spec fn number(self) -> u32 {
        match self {
            Command::RegisterGpu => 0x01,
            Command::RegisterVaRange => 0x02,
            Command::SessionCreate => 0x03,
            Command::SessionDestroy => 0x04,
            Command::SessionGetStats => 0x05,
            Command::SessionBranch => 0x06,
            Command::BlockReserve => 0x07,
            Command::BlockRelease => 0x08,
            Command::BlockTouch => 0x09,
            Command::BlockGetState => 0x0a,
            Command::GetDecision => 0x0b,
            Command::CompleteOperation => 0x0c,
            Command::GetGlobalStats => 0x0d,
            Command::ListSessions => 0x0e,
            Command::SetPolicy => 0x0f,
            Command::RegisterVaspace => 0x10,
            Command::UnregisterVaspace => 0x11,
            Command::RegisterStaticBlock => 0x12,
            Command::UnmapStaticBlock => 0x13,
            Command::RegisterBlockMapping => 0x14,
            Command::UnmapBlockMappings => 0x15,
            Command::SpillBlock => 0x16,
            Command::RegisterBlockBacking => 0x17,
            Command::ProbeRmPhys => 0x18,
            Command::ProbeRmCopy => 0x19,
            Command::RmCopy => 0x1a,
        }
    }

    /// Which way the record goes.
    pub open spec fn direction(self) -> u32 {
        match self {
            Command::RegisterGpu
            | Command::SessionDestroy
            | Command::BlockRelease
            | Command::BlockTouch
            | Command::SetPolicy
            | Command::RegisterVaspace
            | Command::UnregisterVaspace
            | Command::RegisterStaticBlock
            | Command::UnmapStaticBlock
            | Command::RegisterBlockMapping
            | Command::RegisterBlockBacking => DIR_WRITE,
            _ => DIR_READ_WRITE,
        }
    }

    /// The fields of the command's record.
    pub open spec fn fields(self) -> Seq<Field> {
        match self {
            Command::RegisterGpu => seq![one(4), one(8), one(8), one(8), one(4), one(4), many(8, 2)],
            Command::RegisterVaRange => seq![one(8), one(4), one(4), one(8), one(8), one(8), many(8, 4)],
            Command::SessionCreate => seq![one(8), one(4), one(4), one(8), one(8), one(4), one(4), many(8, 2)],
            Command::SessionDestroy => seq![one(8), many(8, 4)],
            Command::SessionGetStats => seq![one(8), one(4), one(4), one(4), one(4), one(8), many(8, 2)],
            Command::SessionBranch => seq![one(8), one(8), many(8, 4)],
            Command::BlockReserve => seq![one(8), one(4), one(4), one(4), one(4), one(8), one(8), many(8, 3)],
            Command::BlockRelease => seq![one(8), one(4), one(4), one(4), one(4), many(8, 4)],
            Command::BlockTouch => seq![one(8), one(8), one(8), many(8, 4)],
            Command::BlockGetState => seq![one(8), one(4), one(4), one(8), one(4), one(8), one(8), many(8, 2)],
            Command::GetDecision => seq![one(4), one(4), Field { size: 136, align: 8, count: 16 }],
            Command::CompleteOperation => seq![one(8), one(8), one(4), one(4), one(8), one(8), one(4), one(4), one(8)],
            Command::GetGlobalStats => seq![one(4), one(4), one(4), one(4), one(4), one(4), one(8), one(8), one(8), one(8), one(8), one(8), one(8), one(8), one(8), one(4), one(4), one(8), one(8), one(8)],
            Command::ListSessions => seq![one(4), one(4), many(8, 64)],
            Command::SetPolicy => seq![one(4), one(4), many(8, 2)],
            Command::RegisterVaspace => seq![one(4), one(4), one(8), one(8), one(8), one(8), many(8, 3)],
            Command::UnregisterVaspace => seq![one(4), one(4), one(8), one(8), one(8)],
            Command::RegisterStaticBlock => seq![one(4), one(4), one(8), one(8), one(8), one(8), one(8), one(4), one(4), many(8, 4)],
            Command::UnmapStaticBlock => seq![one(4), one(4), one(8), one(8), one(8), one(8), many(8, 4)],
            Command::RegisterBlockMapping => seq![one(8), one(4), one(4), one(8), one(8), one(8), one(8), many(8, 4)],
            Command::UnmapBlockMappings => seq![one(8), one(4), one(4), many(8, 4)],
            Command::SpillBlock => seq![one(8), one(4), one(4), one(8), many(8, 3)],
            Command::RegisterBlockBacking => seq![one(8), one(4), one(4), one(4), one(4), one(8), one(8), many(8, 3)],
            Command::ProbeRmPhys => seq![one(8), one(8), one(8), one(8), one(8), one(8), one(8), one(8), many(8, 4)],
            Command::ProbeRmCopy => seq![one(8), one(8), one(8), one(8), one(8), one(8), one(8), one(8), one(8), one(8), one(8), one(8), one(8), many(8, 4)],
            Command::RmCopy => seq![one(8), one(8), one(8), one(8), one(4), one(4), one(4), one(4), one(4), one(4), one(8), one(8), one(8), one(8), one(8), one(8), many(8, 2)],
        }
    }

    /// The command's number, as it is handed to the device.
    pub open spec fn spec_code(self) -> u32 {
        encoded(self.direction(), MAGIC, self.number(), record_size(self.fields()) as u32)
    }

    /// The number of the command among the device's commands.
    pub fn nr(self) -> (r: u32)
        ensures
            r == self.number(),
    {
        match self {
            Command::RegisterGpu => 0x01,
            Command::RegisterVaRange => 0x02,
            Command::SessionCreate => 0x03,
            Command::SessionDestroy => 0x04,
            Command::SessionGetStats => 0x05,
            Command::SessionBranch => 0x06,
            Command::BlockReserve => 0x07,
            Command::BlockRelease => 0x08,
            Command::BlockTouch => 0x09,
            Command::BlockGetState => 0x0a,
            Command::GetDecision => 0x0b,
            Command::CompleteOperation => 0x0c,
            Command::GetGlobalStats => 0x0d,
            Command::ListSessions => 0x0e,
            Command::SetPolicy => 0x0f,
            Command::RegisterVaspace => 0x10,
            Command::UnregisterVaspace => 0x11,
            Command::RegisterStaticBlock => 0x12,
            Command::UnmapStaticBlock => 0x13,
            Command::RegisterBlockMapping => 0x14,
            Command::UnmapBlockMappings => 0x15,
            Command::SpillBlock => 0x16,
            Command::RegisterBlockBacking => 0x17,
            Command::ProbeRmPhys => 0x18,
            Command::ProbeRmCopy => 0x19,
            Command::RmCopy => 0x1a,
        }
    }

    /// Which way the record goes.
    pub fn dir(self) -> (r: u32)
        ensures
            r == self.direction(),
    {
        match self {
            Command::RegisterGpu
            | Command::SessionDestroy
            | Command::BlockRelease
            | Command::BlockTouch
            | Command::SetPolicy
            | Command::RegisterVaspace
            | Command::UnregisterVaspace
            | Command::RegisterStaticBlock
            | Command::UnmapStaticBlock
            | Command::RegisterBlockMapping
            | Command::RegisterBlockBacking => DIR_WRITE,
            _ => DIR_READ_WRITE,
        }
    }

    /// The fields of the command's record.
    pub fn record(self) -> (r: Vec<Field>)
        ensures
            r@ == self.fields(),
            fields_wf(r@),
    {
        let mut f: Vec<Field> = Vec::new();
        match self {
            Command::RegisterGpu => {
                push_ones(&mut f, 4, 1);
                push_ones(&mut f, 8, 3);
                push_ones(&mut f, 4, 2);
                f.push(Field { size: 8, align: 8, count: 2 });
            },
            Command::RegisterVaRange => {
                push_ones(&mut f, 8, 1);
                push_ones(&mut f, 4, 2);
                push_ones(&mut f, 8, 3);
                f.push(Field { size: 8, align: 8, count: 4 });
            },
            Command::SessionCreate => {
                push_ones(&mut f, 8, 1);
                push_ones(&mut f, 4, 2);
                push_ones(&mut f, 8, 2);
                push_ones(&mut f, 4, 2);
                f.push(Field { size: 8, align: 8, count: 2 });
            },
            Command::SessionDestroy => {
                push_ones(&mut f, 8, 1);
                f.push(Field { size: 8, align: 8, count: 4 });
            },
            Command::SessionGetStats => {
                push_ones(&mut f, 8, 1);
                push_ones(&mut f, 4, 4);
                push_ones(&mut f, 8, 1);
                f.push(Field { size: 8, align: 8, count: 2 });
            },
            Command::SessionBranch => {
                push_ones(&mut f, 8, 2);
                f.push(Field { size: 8, align: 8, count: 4 });
            },
            Command::BlockReserve => {
                push_ones(&mut f, 8, 1);
                push_ones(&mut f, 4, 4);
                push_ones(&mut f, 8, 2);
                f.push(Field { size: 8, align: 8, count: 3 });
            },
            Command::BlockRelease => {
                push_ones(&mut f, 8, 1);
                push_ones(&mut f, 4, 4);
                f.push(Field { size: 8, align: 8, count: 4 });
            },
            Command::BlockTouch => {
                push_ones(&mut f, 8, 3);
                f.push(Field { size: 8, align: 8, count: 4 });
            },
            Command::BlockGetState => {
                push_ones(&mut f, 8, 1);
                push_ones(&mut f, 4, 2);
                push_ones(&mut f, 8, 1);
                push_ones(&mut f, 4, 1);
                push_ones(&mut f, 8, 2);
                f.push(Field { size: 8, align: 8, count: 2 });
            },
            Command::GetDecision => {
                push_ones(&mut f, 4, 2);
                f.push(Field { size: 136, align: 8, count: 16 });
            },
            Command::CompleteOperation => {
                push_ones(&mut f, 8, 2);
                push_ones(&mut f, 4, 2);
                push_ones(&mut f, 8, 2);
                push_ones(&mut f, 4, 2);
                push_ones(&mut f, 8, 1);
            },
            Command::GetGlobalStats => {
                push_ones(&mut f, 4, 6);
                push_ones(&mut f, 8, 9);
                push_ones(&mut f, 4, 2);
                push_ones(&mut f, 8, 3);
            },
            Command::ListSessions => {
                push_ones(&mut f, 4, 2);
                f.push(Field { size: 8, align: 8, count: 64 });
            },
            Command::SetPolicy => {
                push_ones(&mut f, 4, 2);
                f.push(Field { size: 8, align: 8, count: 2 });
            },
            Command::RegisterVaspace => {
                push_ones(&mut f, 4, 2);
                push_ones(&mut f, 8, 4);
                f.push(Field { size: 8, align: 8, count: 3 });
            },
            Command::UnregisterVaspace => {
                push_ones(&mut f, 4, 2);
                push_ones(&mut f, 8, 3);
            },
            Command::RegisterStaticBlock => {
                push_ones(&mut f, 4, 2);
                push_ones(&mut f, 8, 5);
                push_ones(&mut f, 4, 2);
                f.push(Field { size: 8, align: 8, count: 4 });
            },
            Command::UnmapStaticBlock => {
                push_ones(&mut f, 4, 2);
                push_ones(&mut f, 8, 4);
                f.push(Field { size: 8, align: 8, count: 4 });
            },
            Command::RegisterBlockMapping => {
                push_ones(&mut f, 8, 1);
                push_ones(&mut f, 4, 2);
                push_ones(&mut f, 8, 4);
                f.push(Field { size: 8, align: 8, count: 4 });
            },
            Command::UnmapBlockMappings => {
                push_ones(&mut f, 8, 1);
                push_ones(&mut f, 4, 2);
                f.push(Field { size: 8, align: 8, count: 4 });
            },
            Command::SpillBlock => {
                push_ones(&mut f, 8, 1);
                push_ones(&mut f, 4, 2);
                push_ones(&mut f, 8, 1);
                f.push(Field { size: 8, align: 8, count: 3 });
            },
            Command::RegisterBlockBacking => {
                push_ones(&mut f, 8, 1);
                push_ones(&mut f, 4, 4);
                push_ones(&mut f, 8, 2);
                f.push(Field { size: 8, align: 8, count: 3 });
            },
            Command::ProbeRmPhys => {
                push_ones(&mut f, 8, 8);
                f.push(Field { size: 8, align: 8, count: 4 });
            },
            Command::ProbeRmCopy => {
                push_ones(&mut f, 8, 13);
                f.push(Field { size: 8, align: 8, count: 4 });
            },
            Command::RmCopy => {
                push_ones(&mut f, 8, 4);
                push_ones(&mut f, 4, 6);
                push_ones(&mut f, 8, 6);
                f.push(Field { size: 8, align: 8, count: 2 });
            },
        }
        assert(f@ =~= self.fields());
        f
    }

    /// The command's number, as it is handed to the device.
    pub fn code(self) -> (r: u32)
        ensures
            r == self.spec_code(),
    {
        let record = self.record();
        ioc(self.dir(), MAGIC, self.nr(), size_of(record.as_slice()) as u32)
    }

    /// The command with a number among the device's commands.
    fn with_number(nr: u32) -> (r: Option<Command>)
        ensures
            r matches Some(c) ==> c.number() == nr,
            forall|c: Command| #[trigger] c.number() == nr ==> r == Some(c),
    {
        match nr {
            0x01 => Some(Command::RegisterGpu),
            0x02 => Some(Command::RegisterVaRange),
            0x03 => Some(Command::SessionCreate),
            0x04 => Some(Command::SessionDestroy),
            0x05 => Some(Command::SessionGetStats),
            0x06 => Some(Command::SessionBranch),
            0x07 => Some(Command::BlockReserve),
            0x08 => Some(Command::BlockRelease),
            0x09 => Some(Command::BlockTouch),
            0x0a => Some(Command::BlockGetState),
            0x0b => Some(Command::GetDecision),
            0x0c => Some(Command::CompleteOperation),
            0x0d => Some(Command::GetGlobalStats),
            0x0e => Some(Command::ListSessions),
            0x0f => Some(Command::SetPolicy),
            0x10 => Some(Command::RegisterVaspace),
            0x11 => Some(Command::UnregisterVaspace),
            0x12 => Some(Command::RegisterStaticBlock),
            0x13 => Some(Command::UnmapStaticBlock),
            0x14 => Some(Command::RegisterBlockMapping),
            0x15 => Some(Command::UnmapBlockMappings),
            0x16 => Some(Command::SpillBlock),
            0x17 => Some(Command::RegisterBlockBacking),
            0x18 => Some(Command::ProbeRmPhys),
            0x19 => Some(Command::ProbeRmCopy),
            0x1a => Some(Command::RmCopy),
            _ => None,
        }
    }

    /// The command that a number was handed in for.
    pub fn from_code(cmd: u32) -> (r: Option<Command>)
        ensures
            r matches Some(c) ==> c.spec_code() == cmd,
            forall|c: Command| #[trigger] c.spec_code() == cmd ==> r == Some(c),
    {
        proof {
            assert forall|c: Command| #[trigger] c.spec_code() == cmd implies cmd & 0xff
                == c.number() by {
                lemma_number_in_code(c);
            }
        }
        match Command::with_number(cmd & 0xff) {
            Some(c) => if c.code() == cmd {
                Some(c)
            } else {
                None
            },
            None => None,
        }
    }
}

/// The low byte of a command's number tells the commands apart.
proof fn lemma_number_in_code(c: Command)
    ensures
        c.spec_code() & 0xff == c.number(),
{
    let dir = c.direction();
    let nr = c.number();
    let size = record_size(c.fields()) as u32;
    assert(((dir << 30) | (size << 16) | (0x50u32 << 8) | nr) & 0xff == nr) by (bit_vector)
        requires
            nr < 0x100,
    ;
}

/// No two commands have the same number.
pub proof fn law_commands_differ(c: Command, d: Command)
    requires
        c.spec_code() == d.spec_code(),
    ensures
        c == d,
{
    lemma_number_in_code(c);
    lemma_number_in_code(d);
}

// ─── Requests ───────────────────────────────────────────────────────────────

/// A command on its way to an open device.
#[derive(Debug, PartialEq, Eq)]
pub struct Request<T> {
    pub fd: i32,
    pub cmd: u32,
    pub arg: T,
}

/// What the answer of the device means: a negative return is a failure with the
/// error number that was set, or an input/output error where none was.
pub open spec fn outcome_of(ret: i32, errno: i32) -> Result<(), i32> {
    if ret >= 0 {
        Ok(())
    } else if errno != 0 {
        Err(errno)
    } else {
        Err(EIO)
    }
}

/// What the answer of the device means: a negative return is a failure with the
/// error number that was set, or an input/output error where none was.
pub fn outcome(ret: i32, errno: i32) -> (r: Result<(), i32>)
    ensures
        r == outcome_of(ret, errno),
{
    if ret < 0 {
        Err(
            if errno != 0 {
                errno
            } else {
                EIO
            },
        )
    } else {
        Ok(())
    }
}

/// Announce an address space that can fault.
pub fn register_vaspace(fd: i32, arg: &PolarisRegisterVaSpaceArg) -> (r: Request<PolarisRegisterVaSpaceArg>)
    ensures
        r == (Request { fd, cmd: Command::RegisterVaspace.spec_code(), arg: *arg }),
{
    Request { fd, cmd: Command::RegisterVaspace.code(), arg: *arg }
}

/// Ask for the state of a block.
pub fn block_get_state(fd: i32, arg: &PolarisBlockGetStateArg) -> (r: Request<PolarisBlockGetStateArg>)
    ensures
        r == (Request { fd, cmd: Command::BlockGetState.spec_code(), arg: *arg }),
{
    Request { fd, cmd: Command::BlockGetState.code(), arg: *arg }
}

/// Branch a session. The branch shares its blocks until one of them is written.
pub fn session_branch(fd: i32, arg: &PolarisSessionBranchArg) -> (r: Request<PolarisSessionBranchArg>)
    ensures
        r == (Request { fd, cmd: Command::SessionBranch.spec_code(), arg: *arg }),
{
    Request { fd, cmd: Command::SessionBranch.code(), arg: *arg }
}

/// Withdraw an address space and the static blocks in it.
pub fn unregister_vaspace(fd: i32, arg: &PolarisUnregisterVaSpaceArg) -> (r: Request<PolarisUnregisterVaSpaceArg>)
    ensures
        r == (Request { fd, cmd: Command::UnregisterVaspace.spec_code(), arg: *arg }),
{
    Request { fd, cmd: Command::UnregisterVaspace.code(), arg: *arg }
}

/// Place a static block.
pub fn register_static_block(fd: i32, arg: &PolarisRegisterStaticBlockArg) -> (r: Request<PolarisRegisterStaticBlockArg>)
    ensures
        r == (Request { fd, cmd: Command::RegisterStaticBlock.spec_code(), arg: *arg }),
{
    Request { fd, cmd: Command::RegisterStaticBlock.code(), arg: *arg }
}

/// Unmap a static block that a fault mapped.
pub fn unmap_static_block(fd: i32, arg: &PolarisUnmapStaticBlockArg) -> (r: Request<PolarisUnmapStaticBlockArg>)
    ensures
        r == (Request { fd, cmd: Command::UnmapStaticBlock.spec_code(), arg: *arg }),
{
    Request { fd, cmd: Command::UnmapStaticBlock.code(), arg: *arg }
}

/// Place a mapping of a block, to be torn down when it spills.
pub fn register_block_mapping(fd: i32, arg: &PolarisRegisterBlockMappingArg) -> (r: Request<PolarisRegisterBlockMappingArg>)
    ensures
        r == (Request { fd, cmd: Command::RegisterBlockMapping.spec_code(), arg: *arg }),
{
    Request { fd, cmd: Command::RegisterBlockMapping.code(), arg: *arg }
}

/// Attach memory to a block.
pub fn register_block_backing(fd: i32, arg: &PolarisRegisterBlockBackingArg) -> (r: Request<PolarisRegisterBlockBackingArg>)
    ensures
        r == (Request { fd, cmd: Command::RegisterBlockBacking.spec_code(), arg: *arg }),
{
    Request { fd, cmd: Command::RegisterBlockBacking.code(), arg: *arg }
}

/// Unmap all mappings of a block that were seen.
pub fn unmap_block_mappings(fd: i32, arg: &PolarisUnmapBlockMappingsArg) -> (r: Request<PolarisUnmapBlockMappingsArg>)
    ensures
        r == (Request { fd, cmd: Command::UnmapBlockMappings.spec_code(), arg: *arg }),
{
    Request { fd, cmd: Command::UnmapBlockMappings.code(), arg: *arg }
}

/// Unmap the mappings of a block and have it offloaded.
pub fn spill_block(fd: i32, arg: &PolarisSpillBlockArg) -> (r: Request<PolarisSpillBlockArg>)
    ensures
        r == (Request { fd, cmd: Command::SpillBlock.spec_code(), arg: *arg }),
{
    Request { fd, cmd: Command::SpillBlock.code(), arg: *arg }
}

/// Ask whether the physical addresses of a block can be had.
pub fn probe_rm_phys(fd: i32, arg: &PolarisProbeRmPhysArg) -> (r: Request<PolarisProbeRmPhysArg>)
    ensures
        r == (Request { fd, cmd: Command::ProbeRmPhys.spec_code(), arg: *arg }),
{
    Request { fd, cmd: Command::ProbeRmPhys.code(), arg: *arg }
}

/// Ask whether bytes can be copied to and from a block.
pub fn probe_rm_copy(fd: i32, arg: &PolarisProbeRmCopyArg) -> (r: Request<PolarisProbeRmCopyArg>)
    ensures
        r == (Request { fd, cmd: Command::ProbeRmCopy.spec_code(), arg: *arg }),
{
    Request { fd, cmd: Command::ProbeRmCopy.code(), arg: *arg }
}

/// Copy between a block and memory of the caller.
pub fn rm_copy(fd: i32, arg: &PolarisRmCopyArg) -> (r: Request<PolarisRmCopyArg>)
    ensures
        r == (Request { fd, cmd: Command::RmCopy.spec_code(), arg: *arg }),
{
    Request { fd, cmd: Command::RmCopy.code(), arg: *arg }
}

} // verus!
