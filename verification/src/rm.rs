//! Memory of the resource manager: the records it is asked with, and what the
//! executor keeps of the memory it was given.

use crate::ioctl::{encoded, ioc, many, one};
use crate::layout::{fields_wf, record_size, size_of, Field};
use crate::seqs::{keys_of, lists};
use crate::text::{hexadecimal, push_hexadecimal, push_str};
use std::collections::HashMap;
use vstd::prelude::*;
use vstd::string::*;

verus! {

broadcast use vstd::std_specs::hash::group_hash_axioms;

/// The letter of the resource manager's commands.
pub const NV_IOCTL_MAGIC: u32 = 0x46;

/// The command that makes an object.
pub const NV_ESC_RM_ALLOC: u32 = 0x2b;

/// The command that gives an object back.
pub const NV_ESC_RM_FREE: u32 = 0x29;

pub const NV_ERR_GENERIC: u32 = 0x0000_ffff;

pub const NV_STATUS_WARN_BIT: u32 = 0x0001_0000;

pub const NV01_NULL_OBJECT: u32 = 0;

pub const NV01_ROOT_CLIENT: u32 = 0x41;

pub const NV01_DEVICE_0: u32 = 0x80;

pub const NV20_SUBDEVICE_0: u32 = 0x2080;

pub const NV01_MEMORY_LOCAL_USER: u32 = 0x40;

pub const NV_DEVICE_ALLOCATION_VAMODE_MULTIPLE_VASPACES: i32 = 0x2;

pub const NVOS32_TYPE_IMAGE: u32 = 0;

/// Memory of the card, wherever there is some.
pub const NVOS32_ATTR_VIDMEM: u32 = 0;

/// Memory of the card in one piece.
pub const NVOS32_ATTR_VIDMEM_CONTIGUOUS: u32 = 0x1000_0000;

pub const NVOS32_ALLOC_FLAGS_USE_BEGIN_END: u32 = 0x0002_0000;

/// Where the range starts that memory is looked for in to provoke a shortage.
pub const DEFAULT_PRESSURE_RANGE_BASE: u64 = 0x100_0000_0000;

/// The number of a command of the resource manager.
pub fn nv_ioctl_cmd(esc: u32, size: usize) -> (r: u64)
    requires
        size <= u32::MAX,
    ensures
        r == encoded(3, NV_IOCTL_MAGIC, esc, size as u32),
{
    ioc(3, NV_IOCTL_MAGIC, esc, size as u32) as u64
}

/// The status is no failure: success, or a warning.
pub open spec fn status_ok(status: u32) -> bool {
    status == 0 || (status != NV_ERR_GENERIC && status & NV_STATUS_WARN_BIT != 0)
}

/// Whether a status is no failure.
pub fn nv_status_ok(status: u32) -> (r: bool)
    ensures
        r == status_ok(status),
{
    status == 0 || (status != NV_ERR_GENERIC && (status & NV_STATUS_WARN_BIT) != 0)
}

// ─── Records ────────────────────────────────────────────────────────────────

/// Gives an object back.
#[derive(Clone, Copy, Debug, PartialEq, Eq)]
pub struct NvOs00Parameters {
    pub h_root: u32,
    pub h_object_parent: u32,
    pub h_object_old: u32,
    pub status: u32,
}

/// Makes an object. The parameters of its class lie elsewhere.
#[derive(Clone, Copy, Debug, PartialEq, Eq)]
pub struct NvOs21Parameters {
    pub h_root: u32,
    pub h_object_parent: u32,
    pub h_object_new: u32,
    pub h_class: u32,
    pub p_alloc_parms: u64,
    pub params_size: u32,
    pub status: u32,
}

/// Makes a client.
#[derive(Clone, Copy, Debug, PartialEq, Eq)]
pub struct Nv0000AllocParameters {
    pub h_client: u32,
    pub process_id: u32,
    pub process_name: [u8; 100],
    pub p_os_pid_info: u64,
}

/// Makes a device.
#[derive(Clone, Copy, Debug, PartialEq, Eq)]
pub struct Nv0080AllocParameters {
    pub device_id: u32,
    pub h_client_share: u32,
    pub h_target_client: u32,
    pub h_target_device: u32,
    pub flags: i32,
    pub va_space_size: u64,
    pub va_start_internal: u64,
    pub va_limit_internal: u64,
    pub va_mode: i32,
}

/// Makes a part of a device.
#[derive(Clone, Copy, Debug, PartialEq, Eq)]
pub struct Nv2080AllocParameters {
    pub sub_device_id: u32,
}

/// Makes memory.
#[derive(Clone, Copy, Debug, PartialEq, Eq)]
pub struct NvMemoryAllocationParameters {
    pub owner: u32,
    pub type_: u32,
    pub flags: u32,
    pub width: u32,
    pub height: u32,
    pub pitch: i32,
    pub attr: u32,
    pub attr2: u32,
    pub format: u32,
    pub compr_covg: u32,
    pub zcull_covg: u32,
    pub range_lo: u64,
    pub range_hi: u64,
    pub size: u64,
    pub alignment: u64,
    pub offset: u64,
    pub limit: u64,
    pub address: u64,
    pub ctag_offset: u32,
    pub h_va_space: u32,
    pub internal_flags: u32,
    pub tag: u32,
    pub numa_node: i32,
    pub _padding: u32,
}

/// A record of the resource manager.
#[derive(Clone, Copy, PartialEq, Eq, Structural, Debug)]
pub enum RmRecord {
    Free,
    Alloc,
    RootClient,
    Device,
    Subdevice,
    Memory,
}

impl RmRecord {
    /// The fields of the record.
    pub open spec fn fields(self) -> Seq<Field> {
        match self {
            RmRecord::Free => seq![one(4), one(4), one(4), one(4)],
            RmRecord::Alloc => seq![one(4), one(4), one(4), one(4), one(8), one(4), one(4)],
            RmRecord::RootClient => seq![one(4), one(4), many(1, 100), one(8)],
            RmRecord::Device => seq![
                one(4),
                one(4),
                one(4),
                one(4),
                one(4),
                one(8),
                one(8),
                one(8),
                one(4),
            ],
            RmRecord::Subdevice => seq![one(4)],
            RmRecord::Memory => Seq::new(11, |i: int| one(4)) + Seq::new(7, |i: int| one(8))
                + Seq::new(6, |i: int| one(4)),
        }
    }

    /// The fields of the record.
    pub fn layout(self) -> (r: Vec<Field>)
        ensures
            r@ == self.fields(),
            fields_wf(r@),
    {
        let mut f: Vec<Field> = Vec::new();
        match self {
            RmRecord::Free => {
                crate::ioctl::push_ones(&mut f, 4, 4);
            },
            RmRecord::Alloc => {
                crate::ioctl::push_ones(&mut f, 4, 4);
                crate::ioctl::push_ones(&mut f, 8, 1);
                crate::ioctl::push_ones(&mut f, 4, 2);
            },
            RmRecord::RootClient => {
                crate::ioctl::push_ones(&mut f, 4, 2);
                f.push(Field { size: 1, align: 1, count: 100 });
                crate::ioctl::push_ones(&mut f, 8, 1);
            },
            RmRecord::Device => {
                crate::ioctl::push_ones(&mut f, 4, 5);
                crate::ioctl::push_ones(&mut f, 8, 3);
                crate::ioctl::push_ones(&mut f, 4, 1);
            },
            RmRecord::Subdevice => {
                crate::ioctl::push_ones(&mut f, 4, 1);
            },
            RmRecord::Memory => {
                crate::ioctl::push_ones(&mut f, 4, 11);
                crate::ioctl::push_ones(&mut f, 8, 7);
                crate::ioctl::push_ones(&mut f, 4, 6);
            },
        }
        assert(f@ =~= self.fields());
        f
    }

    /// How large the record is.
    pub fn size(self) -> (r: usize)
        ensures
            r == record_size(self.fields()),
    {
        let layout = self.layout();
        size_of(layout.as_slice())
    }
}

/// Copy text into a buffer. The last byte of the buffer stays as it is, so that
/// text in a cleared buffer ends with a zero.
pub fn copy_cstr(dst: &mut Vec<u8>, src: &[u8])
    ensures
        final(dst)@ == ({
            let n = copied_len(old(dst)@.len() as int, src@.len() as int);
            src@.take(n) + old(dst)@.skip(n)
        }),
{
    let ghost before = dst@;
    let mut room: usize = dst.len();
    if room > 0 {
        room = room - 1;
    }
    let mut len: usize = src.len();
    if room < len {
        len = room;
    }
    let mut i: usize = 0;
    while i < len
        invariant
            i <= len <= src@.len(),
            len <= before.len(),
            dst@ == src@.take(i as int) + before.skip(i as int),
        decreases len - i,
    {
        dst.set(i, src[i]);
        i += 1;
        assert(dst@ =~= src@.take(i as int) + before.skip(i as int));
    }
}

/// How much of a text goes into a buffer.
pub open spec fn copied_len(room: int, len: int) -> int {
    if room == 0 {
        0
    } else if room - 1 < len {
        room - 1
    } else {
        len
    }
}

// ─── Asking ─────────────────────────────────────────────────────────────────

/// What the resource manager is asked for.
#[derive(Clone, Copy, PartialEq, Eq, Structural, Debug)]
pub enum RmPurpose {
    MakeRootClient,
    MakeDevice,
    MakeSubdevice,
    MakeMemory,
    FreeMemory,
    FreeSubdevice,
    FreeDevice,
    FreeRootClient,
}

impl RmPurpose {
    /// The purpose in words.
    pub open spec fn words(self) -> &'static str {
        match self {
            RmPurpose::MakeRootClient => "RM_ALLOC root client",
            RmPurpose::MakeDevice => "RM_ALLOC device",
            RmPurpose::MakeSubdevice => "RM_ALLOC subdevice",
            RmPurpose::MakeMemory => "RM_ALLOC daemon RM memory",
            RmPurpose::FreeMemory => "RM_FREE daemon RM memory",
            RmPurpose::FreeSubdevice => "RM_FREE subdevice",
            RmPurpose::FreeDevice => "RM_FREE device",
            RmPurpose::FreeRootClient => "RM_FREE root client",
        }
    }

    /// The purpose in words.
    pub fn what(self) -> (r: &'static str)
        ensures
            r == self.words(),
    {
        match self {
            RmPurpose::MakeRootClient => "RM_ALLOC root client",
            RmPurpose::MakeDevice => "RM_ALLOC device",
            RmPurpose::MakeSubdevice => "RM_ALLOC subdevice",
            RmPurpose::MakeMemory => "RM_ALLOC daemon RM memory",
            RmPurpose::FreeMemory => "RM_FREE daemon RM memory",
            RmPurpose::FreeSubdevice => "RM_FREE subdevice",
            RmPurpose::FreeDevice => "RM_FREE device",
            RmPurpose::FreeRootClient => "RM_FREE root client",
        }
    }
}

/// Why the resource manager did not do what it was asked for.
#[derive(Clone, Copy, PartialEq, Eq, Structural, Debug)]
pub enum RmError {
    /// The call itself failed.
    Ioctl(RmPurpose),
    /// The call went through with a status that is a failure.
    Status(RmPurpose, u32),
    /// The range to look for memory in does not end among addresses.
    RangeOverflow { base: u64, size: u64 },
}

impl RmError {
    /// The failure in words. What the system says of a failed call follows.
    pub open spec fn message(self) -> Seq<u8> {
        match self {
            RmError::Ioctl(p) => p.words().spec_bytes() + " ioctl failed: ".spec_bytes(),
            RmError::Status(p, status) => p.words().spec_bytes() + " RM status=0x".spec_bytes()
                + hexadecimal(status as nat),
            RmError::RangeOverflow { base, size } => "RM pressure range overflow base=0x".spec_bytes()
                + hexadecimal(base as nat) + " size=0x".spec_bytes() + hexadecimal(size as nat),
        }
    }

    /// The failure in words. What the system says of a failed call follows.
    pub fn text(self) -> (r: Vec<u8>)
        ensures
            r@ == self.message(),
    {
        let mut out: Vec<u8> = Vec::new();
        match self {
            RmError::Ioctl(p) => {
                push_str(&mut out, p.what());
                push_str(&mut out, " ioctl failed: ");
                assert(out@ =~= self.message());
            },
            RmError::Status(p, status) => {
                push_str(&mut out, p.what());
                push_str(&mut out, " RM status=0x");
                push_hexadecimal(&mut out, status as u64);
                assert(out@ =~= self.message());
            },
            RmError::RangeOverflow { base, size } => {
                push_str(&mut out, "RM pressure range overflow base=0x");
                push_hexadecimal(&mut out, base);
                push_str(&mut out, " size=0x");
                push_hexadecimal(&mut out, size);
                assert(out@ =~= self.message());
            },
        }
        out
    }
}

/// What came back from the resource manager.
#[derive(Clone, Copy, Debug, PartialEq, Eq)]
pub struct RmReply {
    /// What the call returned.
    pub ret: i32,
    pub status: u32,
    /// The object that was made.
    pub h_object_new: u32,
    /// The client as the parameters name it.
    pub h_client: u32,
    /// The size of the memory as the parameters name it.
    pub size: u64,
    /// Where the memory lies as the parameters name it.
    pub offset: u64,
}

/// What a reply means.
pub open spec fn replied(purpose: RmPurpose, reply: RmReply) -> Result<u32, RmError> {
    if reply.ret != 0 {
        Err(RmError::Ioctl(purpose))
    } else if !status_ok(reply.status) {
        Err(RmError::Status(purpose, reply.status))
    } else {
        Ok(reply.h_object_new)
    }
}

/// What a reply means: the object that was made, or why none was.
pub fn rm_outcome(purpose: RmPurpose, reply: &RmReply) -> (r: Result<u32, RmError>)
    ensures
        r == replied(purpose, *reply),
{
    if reply.ret != 0 {
        return Err(RmError::Ioctl(purpose));
    }
    if !nv_status_ok(reply.status) {
        return Err(RmError::Status(purpose, reply.status));
    }
    Ok(reply.h_object_new)
}

/// The record that asks for an object. Where its parameters lie is filled in by
/// who makes the call.
pub fn rm_alloc(h_root: u32, h_parent: u32, h_class: u32, params: RmRecord) -> (r: NvOs21Parameters)
    ensures
        r == (NvOs21Parameters {
            h_root,
            h_object_parent: h_parent,
            h_object_new: 0,
            h_class,
            p_alloc_parms: 0,
            params_size: record_size(params.fields()) as u32,
            status: 0,
        }),
{
    NvOs21Parameters {
        h_root,
        h_object_parent: h_parent,
        h_object_new: 0,
        h_class,
        p_alloc_parms: 0,
        params_size: params.size() as u32,
        status: 0,
    }
}

/// The record that gives an object back, or nothing where there is no object.
pub open spec fn freeing(fd: i32, h_root: u32, h_parent: u32, h_object: u32) -> Option<NvOs00Parameters> {
    if fd < 0 || h_root == 0 || h_object == 0 {
        None
    } else {
        Some(NvOs00Parameters { h_root, h_object_parent: h_parent, h_object_old: h_object, status: 0 })
    }
}

/// The record that gives an object back, or nothing where there is no object.
pub fn rm_free(fd: i32, h_root: u32, h_parent: u32, h_object: u32) -> (r: Option<NvOs00Parameters>)
    ensures
        r == freeing(fd, h_root, h_parent, h_object),
{
    if fd < 0 || h_root == 0 || h_object == 0 {
        return None;
    }
    Some(NvOs00Parameters { h_root, h_object_parent: h_parent, h_object_old: h_object, status: 0 })
}

// ─── What the executor keeps ────────────────────────────────────────────────

/// Memory of the resource manager.
#[derive(Clone, Copy, PartialEq, Eq, Structural, Debug)]
pub struct RmAllocation {
    pub h_memory: u32,
    pub size: u64,
    /// Where the memory lies on the card.
    pub phys_fb_addr: u64,
}

/// How memory is asked for.
#[derive(Clone, Copy, PartialEq, Eq, Structural, Debug)]
pub struct RmOptions {
    pub force_contiguous: bool,
    pub pressure_outside_fb_range: bool,
    pub pressure_range_base: u64,
}

/// The executor's client at the resource manager, and its memory by block.
pub struct RmBackend {
    pub control_fd: i32,
    pub h_client: u32,
    pub h_device: u32,
    pub h_subdevice: u32,
    pub options: RmOptions,
    pub allocations: HashMap<u64, RmAllocation>,
}

/// The executor's client at the resource manager, as mathematical values.
#[verifier::ext_equal]
pub struct RmView {
    pub control_fd: i32,
    pub h_client: u32,
    pub h_device: u32,
    pub h_subdevice: u32,
    pub options: RmOptions,
    pub allocations: Map<u64, RmAllocation>,
}

impl View for RmBackend {
    type V = RmView;

    open spec fn view(&self) -> RmView {
        RmView {
            control_fd: self.control_fd,
            h_client: self.h_client,
            h_device: self.h_device,
            h_subdevice: self.h_subdevice,
            options: self.options,
            allocations: self.allocations@,
        }
    }
}

/// How a request for the memory of a block goes on.
#[derive(Clone, Copy, Debug, PartialEq, Eq)]
pub enum MemoryStep {
    /// The block has memory.
    Have(RmAllocation),
    /// The resource manager is to be asked.
    Ask(NvMemoryAllocationParameters),
    /// There is nothing to ask for.
    Refused(RmError),
}

/// The record that asks for memory.
pub open spec fn memory_record(owner: u32, options: RmOptions, size: u64) -> Result<
    NvMemoryAllocationParameters,
    RmError,
> {
    let plain = NvMemoryAllocationParameters {
        owner,
        type_: NVOS32_TYPE_IMAGE,
        flags: 0,
        width: 0,
        height: 0,
        pitch: 0,
        attr: if options.force_contiguous || options.pressure_outside_fb_range {
            NVOS32_ATTR_VIDMEM_CONTIGUOUS
        } else {
            NVOS32_ATTR_VIDMEM
        },
        attr2: 0,
        format: 0,
        compr_covg: 0,
        zcull_covg: 0,
        range_lo: 0,
        range_hi: 0,
        size,
        alignment: 0,
        offset: 0,
        limit: 0,
        address: 0,
        ctag_offset: 0,
        h_va_space: 0,
        internal_flags: 0,
        tag: 0,
        numa_node: 0,
        _padding: 0,
    };
    if !options.pressure_outside_fb_range {
        Ok(plain)
    } else if 0 < options.pressure_range_base + size <= u64::MAX {
        Ok(
            NvMemoryAllocationParameters {
                flags: NVOS32_ALLOC_FLAGS_USE_BEGIN_END,
                range_lo: options.pressure_range_base,
                range_hi: (options.pressure_range_base + size - 1) as u64,
                ..plain
            },
        )
    } else {
        Err(RmError::RangeOverflow { base: options.pressure_range_base, size })
    }
}

impl RmView {
    /// How a request for the memory of a block goes on.
    pub open spec fn asking(self, block_id: u64, size: u64) -> MemoryStep {
        if self.allocations.contains_key(block_id) {
            MemoryStep::Have(self.allocations[block_id])
        } else {
            match memory_record(self.h_client, self.options, size) {
                Ok(record) => MemoryStep::Ask(record),
                Err(e) => MemoryStep::Refused(e),
            }
        }
    }

    /// With memory noted for a block.
    pub open spec fn with(self, block_id: u64, allocation: RmAllocation) -> RmView {
        RmView { allocations: self.allocations.insert(block_id, allocation), ..self }
    }

    /// Without the memory of a block.
    pub open spec fn without(self, block_id: u64) -> RmView {
        RmView { allocations: self.allocations.remove(block_id), ..self }
    }

    /// What gives the memory of a block back.
    pub open spec fn freeing_block(self, block_id: u64) -> Option<NvOs00Parameters> {
        if self.allocations.contains_key(block_id) {
            freeing(
                self.control_fd,
                self.h_client,
                self.h_device,
                self.allocations[block_id].h_memory,
            )
        } else {
            None
        }
    }
}

/// The memory that a reply tells of.
pub open spec fn allocation_of(reply: RmReply) -> RmAllocation {
    RmAllocation { h_memory: reply.h_object_new, size: reply.size, phys_fb_addr: reply.offset }
}

impl RmBackend {
    /// A client with no memory yet.
    pub fn with_handles(
        control_fd: i32,
        h_client: u32,
        h_device: u32,
        h_subdevice: u32,
        options: RmOptions,
    ) -> (r: RmBackend)
        ensures
            r@ == (RmView {
                control_fd,
                h_client,
                h_device,
                h_subdevice,
                options,
                allocations: Map::empty(),
            }),
    {
        RmBackend {
            control_fd,
            h_client,
            h_device,
            h_subdevice,
            options,
            allocations: HashMap::new(),
        }
    }

    /// The open control device.
    pub fn rm_control_fd(&self) -> (r: i32)
        ensures
            r == self@.control_fd,
    {
        self.control_fd
    }

    /// Whether a block has memory.
    pub fn has_block(&self, block_id: u64) -> (r: bool)
        ensures
            r == self@.allocations.contains_key(block_id),
    {
        self.allocations.contains_key(&block_id)
    }

    /// Begin to get memory for a block.
    pub fn alloc_for_block(&self, block_id: u64, size: u64) -> (r: MemoryStep)
        ensures
            r == self@.asking(block_id, size),
    {
        if let Some(allocation) = self.allocations.get(&block_id) {
            return MemoryStep::Have(*allocation);
        }
        let contiguous = self.options.force_contiguous || self.options.pressure_outside_fb_range;
        let mut flags: u32 = 0;
        let mut range_lo: u64 = 0;
        let mut range_hi: u64 = 0;
        if self.options.pressure_outside_fb_range {
            let base = self.options.pressure_range_base;
            let last = match base.checked_add(size) {
                Some(end) => end.checked_sub(1),
                None => None,
            };
            match last {
                Some(last) => {
                    flags = NVOS32_ALLOC_FLAGS_USE_BEGIN_END;
                    range_lo = base;
                    range_hi = last;
                },
                None => {
                    return MemoryStep::Refused(RmError::RangeOverflow { base, size });
                },
            }
        }
        MemoryStep::Ask(
            NvMemoryAllocationParameters {
                owner: self.h_client,
                type_: NVOS32_TYPE_IMAGE,
                flags,
                width: 0,
                height: 0,
                pitch: 0,
                attr: if contiguous {
                    NVOS32_ATTR_VIDMEM_CONTIGUOUS
                } else {
                    NVOS32_ATTR_VIDMEM
                },
                attr2: 0,
                format: 0,
                compr_covg: 0,
                zcull_covg: 0,
                range_lo,
                range_hi,
                size,
                alignment: 0,
                offset: 0,
                limit: 0,
                address: 0,
                ctag_offset: 0,
                h_va_space: 0,
                internal_flags: 0,
                tag: 0,
                numa_node: 0,
                _padding: 0,
            },
        )
    }

    /// Take note of the memory that the resource manager gave for a block.
    pub fn note_allocation(&mut self, block_id: u64, reply: &RmReply) -> (r: Result<
        RmAllocation,
        RmError,
    >)
        ensures
            match replied(RmPurpose::MakeMemory, *reply) {
                Ok(_) => r == Ok::<RmAllocation, RmError>(allocation_of(*reply)) && final(self)@
                    == old(self)@.with(block_id, allocation_of(*reply)),
                Err(e) => r == Err::<RmAllocation, RmError>(e) && final(self)@ == old(self)@,
            },
    {
        match rm_outcome(RmPurpose::MakeMemory, reply) {
            Ok(h_memory) => {
                let allocation = RmAllocation {
                    h_memory,
                    size: reply.size,
                    phys_fb_addr: reply.offset,
                };
                self.allocations.insert(block_id, allocation);
                Ok(allocation)
            },
            Err(e) => Err(e),
        }
    }

    /// Begin to give the memory of a block back. Where the resource manager need
    /// not be asked, the block has none afterwards.
    pub fn free_block(&mut self, block_id: u64) -> (r: Option<NvOs00Parameters>)
        ensures
            r == old(self)@.freeing_block(block_id),
            final(self)@ == (if r is Some {
                old(self)@
            } else {
                old(self)@.without(block_id)
            }),
    {
        let h_memory = match self.allocations.get(&block_id) {
            Some(allocation) => allocation.h_memory,
            None => {
                proof {
                    assert(self@.allocations.remove(block_id) =~= self@.allocations);
                }
                return None;
            },
        };
        let request = rm_free(self.control_fd, self.h_client, self.h_device, h_memory);
        if request.is_none() {
            self.allocations.remove(&block_id);
        }
        request
    }

    /// Take note of what became of the memory of a block.
    pub fn note_free(&mut self, block_id: u64, reply: &RmReply) -> (r: Result<(), RmError>)
        ensures
            match replied(RmPurpose::FreeMemory, *reply) {
                Ok(_) => r == Ok::<(), RmError>(()) && final(self)@ == old(self)@.without(block_id),
                Err(e) => r == Err::<(), RmError>(e) && final(self)@ == old(self)@,
            },
    {
        match rm_outcome(RmPurpose::FreeMemory, reply) {
            Ok(_) => {
                self.allocations.remove(&block_id);
                Ok(())
            },
            Err(e) => Err(e),
        }
    }
}

// ─── Setting up ─────────────────────────────────────────────────────────────

/// Text at the start of a cleared buffer of the size of a process name.
pub open spec fn name_field(src: Seq<u8>) -> Seq<u8> {
    let n = copied_len(100, src.len() as int);
    src.take(n) + Seq::new((100 - n) as nat, |i: int| 0u8)
}

/// Text at the start of a cleared buffer of the size of a process name.
fn process_name(src: &[u8]) -> (r: [u8; 100])
    ensures
        r@ == name_field(src@),
{
    let mut name: [u8; 100] = [0u8; 100];
    let mut len: usize = src.len();
    if 99 < len {
        len = 99;
    }
    let mut i: usize = 0;
    while i < len
        invariant
            i <= len <= src@.len(),
            len <= 99,
            name@.len() == 100,
            forall|k: int| 0 <= k < i ==> #[trigger] name@[k] == src@[k],
            forall|k: int| i <= k < 100 ==> #[trigger] name@[k] == 0,
        decreases len - i,
    {
        name[i] = src[i];
        i += 1;
    }
    assert(name@ =~= name_field(src@));
    name
}

/// How far the client is set up.
#[derive(Clone, Copy, PartialEq, Eq, Structural, Debug)]
pub enum SetupStage {
    RootClient,
    Device,
    Subdevice,
    Done,
}

/// A client that is being set up: first the client itself, then the device,
/// then its part.
#[derive(Clone, Copy, Debug, PartialEq, Eq)]
pub struct RmSetup {
    pub stage: SetupStage,
    pub control_fd: i32,
    pub cuda_ordinal: i32,
    pub h_client: u32,
    pub h_device: u32,
    pub h_subdevice: u32,
    pub options: RmOptions,
}

/// The parameters of an object that is asked for while setting up.
#[derive(Clone, Copy, Debug, PartialEq, Eq)]
pub enum SetupParams {
    RootClient(Nv0000AllocParameters),
    Device(Nv0080AllocParameters),
    Subdevice(Nv2080AllocParameters),
}

impl RmSetup {
    /// The record that is to be asked with next.
    pub open spec fn next_request(self) -> Option<NvOs21Parameters> {
        let (h_root, h_parent, h_class, params) = match self.stage {
            SetupStage::RootClient => (
                NV01_NULL_OBJECT,
                NV01_NULL_OBJECT,
                NV01_ROOT_CLIENT,
                RmRecord::RootClient,
            ),
            SetupStage::Device => (self.h_client, self.h_client, NV01_DEVICE_0, RmRecord::Device),
            SetupStage::Subdevice => (
                self.h_client,
                self.h_device,
                NV20_SUBDEVICE_0,
                RmRecord::Subdevice,
            ),
            SetupStage::Done => (0, 0, 0, RmRecord::Free),
        };
        if self.stage is Done {
            None
        } else {
            Some(
                NvOs21Parameters {
                    h_root,
                    h_object_parent: h_parent,
                    h_object_new: 0,
                    h_class,
                    p_alloc_parms: 0,
                    params_size: record_size(params.fields()) as u32,
                    status: 0,
                },
            )
        }
    }

    /// What the next request is for.
    pub open spec fn purpose(self) -> RmPurpose {
        match self.stage {
            SetupStage::RootClient => RmPurpose::MakeRootClient,
            SetupStage::Device => RmPurpose::MakeDevice,
            _ => RmPurpose::MakeSubdevice,
        }
    }

    /// The setup after a reply. The client is the one that the parameters name,
    /// if they name one.
    pub open spec fn after(self, reply: RmReply) -> (Result<(), RmError>, RmSetup) {
        match replied(self.purpose(), reply) {
            Err(e) => (Err(e), self),
            Ok(h) => (
                Ok(()),
                match self.stage {
                    SetupStage::RootClient => RmSetup {
                        stage: SetupStage::Device,
                        h_client: if reply.h_client != 0 {
                            reply.h_client
                        } else {
                            h
                        },
                        ..self
                    },
                    SetupStage::Device => RmSetup {
                        stage: SetupStage::Subdevice,
                        h_device: h,
                        ..self
                    },
                    _ => RmSetup { stage: SetupStage::Done, h_subdevice: h, ..self },
                },
            ),
        }
    }

    /// Begin to set a client up.
    pub fn new(control_fd: i32, cuda_ordinal: i32, options: RmOptions) -> (r: RmSetup)
        ensures
            r == (RmSetup {
                stage: SetupStage::RootClient,
                control_fd,
                cuda_ordinal,
                h_client: 0,
                h_device: 0,
                h_subdevice: 0,
                options,
            }),
    {
        RmSetup {
            stage: SetupStage::RootClient,
            control_fd,
            cuda_ordinal,
            h_client: 0,
            h_device: 0,
            h_subdevice: 0,
            options,
        }
    }

    /// The record that is to be asked with next.
    pub fn request(&self) -> (r: Option<NvOs21Parameters>)
        ensures
            r == self.next_request(),
    {
        match self.stage {
            SetupStage::RootClient => Some(
                rm_alloc(NV01_NULL_OBJECT, NV01_NULL_OBJECT, NV01_ROOT_CLIENT, RmRecord::RootClient),
            ),
            SetupStage::Device => Some(
                rm_alloc(self.h_client, self.h_client, NV01_DEVICE_0, RmRecord::Device),
            ),
            SetupStage::Subdevice => Some(
                rm_alloc(self.h_client, self.h_device, NV20_SUBDEVICE_0, RmRecord::Subdevice),
            ),
            SetupStage::Done => None,
        }
    }

    /// The parameters that go with the record.
    pub fn params(&self) -> (r: Option<SetupParams>)
        ensures
            match self.stage {
                SetupStage::RootClient => r matches Some(SetupParams::RootClient(p)) && p.h_client
                    == 0 && p.process_id == 0 && p.process_name@ == name_field(
                    "polarisd".spec_bytes(),
                ) && p.p_os_pid_info == 0,
                SetupStage::Device => r == Some(
                    SetupParams::Device(
                        Nv0080AllocParameters {
                            device_id: self.cuda_ordinal as u32,
                            h_client_share: self.h_client,
                            h_target_client: 0,
                            h_target_device: 0,
                            flags: 0,
                            va_space_size: 0,
                            va_start_internal: 0,
                            va_limit_internal: 0,
                            va_mode: NV_DEVICE_ALLOCATION_VAMODE_MULTIPLE_VASPACES,
                        },
                    ),
                ),
                SetupStage::Subdevice => r == Some(
                    SetupParams::Subdevice(Nv2080AllocParameters { sub_device_id: 0 }),
                ),
                SetupStage::Done => r is None,
            },
    {
        match self.stage {
            SetupStage::RootClient => Some(
                SetupParams::RootClient(
                    Nv0000AllocParameters {
                        h_client: 0,
                        process_id: 0,
                        process_name: process_name("polarisd".as_bytes()),
                        p_os_pid_info: 0,
                    },
                ),
            ),
            SetupStage::Device => Some(
                SetupParams::Device(
                    Nv0080AllocParameters {
                        device_id: self.cuda_ordinal as u32,
                        h_client_share: self.h_client,
                        h_target_client: 0,
                        h_target_device: 0,
                        flags: 0,
                        va_space_size: 0,
                        va_start_internal: 0,
                        va_limit_internal: 0,
                        va_mode: NV_DEVICE_ALLOCATION_VAMODE_MULTIPLE_VASPACES,
                    },
                ),
            ),
            SetupStage::Subdevice => Some(
                SetupParams::Subdevice(Nv2080AllocParameters { sub_device_id: 0 }),
            ),
            SetupStage::Done => None,
        }
    }

    /// Take note of a reply.
    pub fn note(&mut self, reply: &RmReply) -> (r: Result<(), RmError>)
        ensures
            (r, *final(self)) == old(self).after(*reply),
    {
        let purpose = match self.stage {
            SetupStage::RootClient => RmPurpose::MakeRootClient,
            SetupStage::Device => RmPurpose::MakeDevice,
            _ => RmPurpose::MakeSubdevice,
        };
        match rm_outcome(purpose, reply) {
            Err(e) => Err(e),
            Ok(h) => {
                match self.stage {
                    SetupStage::RootClient => {
                        self.h_client = if reply.h_client != 0 {
                            reply.h_client
                        } else {
                            h
                        };
                        self.stage = SetupStage::Device;
                    },
                    SetupStage::Device => {
                        self.h_device = h;
                        self.stage = SetupStage::Subdevice;
                    },
                    _ => {
                        self.h_subdevice = h;
                        self.stage = SetupStage::Done;
                    },
                }
                Ok(())
            },
        }
    }

    /// The client, once it is set up.
    pub fn backend(&self) -> (r: Option<RmBackend>)
        ensures
            match r {
                Some(b) => self.stage is Done && b@ == (RmView {
                    control_fd: self.control_fd,
                    h_client: self.h_client,
                    h_device: self.h_device,
                    h_subdevice: self.h_subdevice,
                    options: self.options,
                    allocations: Map::empty(),
                }),
                None => !(self.stage is Done),
            },
    {
        match self.stage {
            SetupStage::Done => Some(
                RmBackend::with_handles(
                    self.control_fd,
                    self.h_client,
                    self.h_device,
                    self.h_subdevice,
                    self.options,
                ),
            ),
            _ => None,
        }
    }
}

// ─── Closing ────────────────────────────────────────────────────────────────

/// Append a record, if there is one.
fn push_some(out: &mut Vec<NvOs00Parameters>, request: Option<NvOs00Parameters>)
    ensures
        final(out)@ == old(out)@ + some_of(request),
{
    match request {
        Some(r) => {
            out.push(r);
        },
        None => {},
    }
    assert(out@ =~= old(out)@ + some_of(request));
}

/// The record, if there is one.
pub open spec fn some_of(request: Option<NvOs00Parameters>) -> Seq<NvOs00Parameters> {
    match request {
        Some(r) => seq![r],
        None => seq![],
    }
}

impl RmView {
    /// What gives the memory of some blocks back, one after the other.
    pub open spec fn freeing_blocks(self, blocks: Seq<u64>) -> Seq<NvOs00Parameters>
        decreases blocks.len(),
    {
        if blocks.len() == 0 {
            Seq::empty()
        } else {
            self.freeing_blocks(blocks.drop_last()) + some_of(self.freeing_block(blocks.last()))
        }
    }

    /// What gives the client's own objects back: the part, the device, the client.
    pub open spec fn closing_tail(self) -> Seq<NvOs00Parameters> {
        some_of(freeing(self.control_fd, self.h_client, self.h_device, self.h_subdevice))
            + some_of(freeing(self.control_fd, self.h_client, self.h_client, self.h_device))
            + some_of(freeing(self.control_fd, self.h_client, self.h_client, self.h_client))
    }
}

impl RmBackend {
    /// What gives everything back: the memory of every block once, in some order,
    /// then the part, the device and the client.
    pub fn close(self) -> (r: Vec<NvOs00Parameters>)
        ensures
            exists|blocks: Seq<u64>|
                lists(blocks, self@.allocations.dom()) && r@ == #[trigger] self@.freeing_blocks(
                    blocks,
                ) + self@.closing_tail(),
    {
        let blocks = keys_of(&self.allocations);
        let mut out: Vec<NvOs00Parameters> = Vec::new();
        let mut i: usize = 0;
        while i < blocks.len()
            invariant
                i <= blocks@.len(),
                lists(blocks@, self@.allocations.dom()),
                out@ == self@.freeing_blocks(blocks@.take(i as int)),
            decreases blocks@.len() - i,
        {
            broadcast use vstd::std_specs::hash::group_hash_axioms;

            let block_id = blocks[i];
            assert(blocks@.contains(block_id));
            if let Some(allocation) = self.allocations.get(&block_id) {
                let request = rm_free(
                    self.control_fd,
                    self.h_client,
                    self.h_device,
                    allocation.h_memory,
                );
                push_some(&mut out, request);
            }
            assert(blocks@.take(i as int + 1).drop_last() =~= blocks@.take(i as int));
            i += 1;
        }
        assert(blocks@.take(i as int) =~= blocks@);
        let ghost frees = out@;
        push_some(&mut out, rm_free(self.control_fd, self.h_client, self.h_device, self.h_subdevice));
        push_some(&mut out, rm_free(self.control_fd, self.h_client, self.h_client, self.h_device));
        push_some(&mut out, rm_free(self.control_fd, self.h_client, self.h_client, self.h_client));
        assert(out@ =~= frees + self@.closing_tail());
        out
    }
}

/// Memory that was noted for a block and given back leaves nothing behind.
pub proof fn law_alloc_then_free_leaves_nothing(v: RmView, block_id: u64, allocation: RmAllocation)
    requires
        !v.allocations.contains_key(block_id),
    ensures
        v.with(block_id, allocation).without(block_id) == v,
{
    assert(v.allocations.insert(block_id, allocation).remove(block_id) =~= v.allocations);
}

/// A block that has memory is not asked memory for again.
pub proof fn law_memory_is_asked_once(v: RmView, block_id: u64, allocation: RmAllocation, size: u64)
    ensures
        v.with(block_id, allocation).asking(block_id, size) == MemoryStep::Have(allocation),
{
}

} // verus!
