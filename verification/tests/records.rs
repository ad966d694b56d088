//! Layouts, numbers and limits that the outside world relies on.

use polaris::abi::{PolarisRegisterVaSpaceArg, PolarisSpillBlockArg};
use polaris::cpu_pool::CpuPool;
use polaris::gpu::{GpuState, GpuVaPool};
use polaris::ioctl::{ioc, outcome, register_vaspace, spill_block, Command, MAGIC};
use polaris::layout::{align_of, offset_of, size_of};
use polaris::ranges::{coalesce, count, give, is_taken, remove, snap_up, take};
use polaris::rm::{
    copy_cstr, nv_ioctl_cmd, nv_status_ok, rm_free, MemoryStep, RmBackend, RmError, RmOptions,
    RmPurpose, RmRecord, RmReply, RmSetup, SetupParams, NV_ERR_GENERIC, NV_ESC_RM_ALLOC,
    NV_ESC_RM_FREE, NV_STATUS_WARN_BIT,
};

#[test]
fn cpu_pool_reports_and_enforces_actual_allocated_size() {
    let mut pool = CpuPool::new(0x1000_0000, 8192);

    let first = pool.allocate(4096).expect("first page");
    let second = pool.allocate(4096).expect("second page");

    assert_eq!(first, 0x1000_0000);
    assert_eq!(second, 0x1000_1000);
    assert_eq!(pool.used_bytes(), 8192);
    assert_eq!(pool.free_bytes(), 0);
    assert!(pool.allocate(4096).is_none());

    pool.free(first, 4096);
    assert_eq!(pool.used_bytes(), 4096);
    assert_eq!(pool.free_bytes(), 4096);
    assert_eq!(pool.allocate(4096), Some(first));
}

#[test]
fn rm_struct_layout_matches_nvidia_headers() {
    let free = RmRecord::Free.layout();
    assert_eq!(size_of(&free), 16);
    assert_eq!(align_of(&free), 4);

    let alloc = RmRecord::Alloc.layout();
    assert_eq!(size_of(&alloc), 32);
    assert_eq!(align_of(&alloc), 8);
    assert_eq!(offset_of(&alloc, 4), 16);
    assert_eq!(offset_of(&alloc, 5), 24);
    assert_eq!(offset_of(&alloc, 6), 28);

    let root = RmRecord::RootClient.layout();
    assert_eq!(size_of(&root), 120);
    assert_eq!(align_of(&root), 8);
    assert_eq!(offset_of(&root, 3), 112);

    let device = RmRecord::Device.layout();
    assert_eq!(size_of(&device), 56);
    assert_eq!(align_of(&device), 8);
    assert_eq!(offset_of(&device, 5), 24);
    assert_eq!(offset_of(&device, 6), 32);
    assert_eq!(offset_of(&device, 7), 40);
    assert_eq!(offset_of(&device, 8), 48);

    let subdevice = RmRecord::Subdevice.layout();
    assert_eq!(size_of(&subdevice), 4);
    assert_eq!(align_of(&subdevice), 4);

    let memory = RmRecord::Memory.layout();
    assert_eq!(size_of(&memory), 128);
    assert_eq!(align_of(&memory), 8);
    assert_eq!(offset_of(&memory, 11), 48);
    assert_eq!(offset_of(&memory, 13), 64);
    assert_eq!(offset_of(&memory, 17), 96);
    assert_eq!(offset_of(&memory, 18), 104);
    assert_eq!(offset_of(&memory, 22), 120);

    assert_eq!(NV_ESC_RM_ALLOC, 0x2b);
    assert_eq!(NV_ESC_RM_FREE, 0x29);
}

#[test]
fn rm_status_helper_rejects_nv_errors() {
    assert!(nv_status_ok(0));
    assert!(nv_status_ok(NV_STATUS_WARN_BIT));
    assert!(!nv_status_ok(0x51));
    assert!(!nv_status_ok(NV_ERR_GENERIC));
}

// ─── Ranges and pools ───────────────────────────────────────────────────────

#[test]
fn snapping_rounds_up_to_powers_of_two() {
    assert_eq!(snap_up(0, 4096), 0);
    assert_eq!(snap_up(1, 4096), 4096);
    assert_eq!(snap_up(4096, 4096), 4096);
    assert_eq!(snap_up(4097, 4096), 8192);
    assert_eq!(snap_up(7, 0), 7);
}

#[test]
fn ranges_are_taken_by_first_fit_and_joined_when_given_back() {
    let mut free = vec![(0x1000, 0x3000), (0x8000, 0x1000)];
    assert_eq!(take(&mut free, 0x800, 0x1000), Some(0x1000));
    assert_eq!(free, vec![(0x1800, 0x2800), (0x8000, 0x1000)]);
    assert_eq!(take(&mut free, 0x1000, 0x1000), Some(0x2000));
    assert_eq!(free, vec![(0x1800, 0x800), (0x3000, 0x1000), (0x8000, 0x1000)]);
    assert_eq!(take(&mut free, 0x2000, 1), None);
    assert!(is_taken(&free, 0x2000, 0x1000));
    assert!(!is_taken(&free, 0x1900, 0x1000));
    give(&mut free, 0x2000, 0x1000);
    give(&mut free, 0x1000, 0x800);
    assert_eq!(free, vec![(0x1000, 0x3000), (0x8000, 0x1000)]);
    assert_eq!(count(&free), 0x4000);
    // Nothing can be given back anywhere.
    assert!(is_taken(&free, 0x1800, 0));
    give(&mut free, 0x1800, 0);
    assert_eq!(free, vec![(0x1000, 0x3000), (0x8000, 0x1000)]);
}

#[test]
fn ranges_are_joined_in_any_order() {
    let mut free = vec![(0x8000, 0x1000), (0x1000, 0x1000), (0x4000, 0x2000), (0x2000, 0x800)];
    coalesce(&mut free);
    assert_eq!(free, vec![(0x1000, 0x1800), (0x4000, 0x2000), (0x8000, 0x1000)]);
    let mut overlapping = vec![(0x3000, 0x100), (0x1000, 0x4000), (0x5000, 0x1000), (0x1000, 1)];
    coalesce(&mut overlapping);
    assert_eq!(overlapping, vec![(0x1000, 0x5000)]);
    let mut alone = vec![(7, 0)];
    coalesce(&mut alone);
    assert_eq!(alone, vec![(7, 0)]);
}

#[test]
fn ranges_can_be_cut_out() {
    let mut free = vec![(0x1000, 0x4000)];
    remove(&mut free, 0x2000, 0x1000);
    assert_eq!(free, vec![(0x1000, 0x1000), (0x3000, 0x2000)]);
    remove(&mut free, 0x1800, 0x2000);
    remove(&mut free, 0x9000, 0x1000);
    coalesce(&mut free);
    assert_eq!(count(&free), 0x3000);
}

#[test]
fn address_pool_gives_and_takes() {
    let mut pool = GpuVaPool::new(0x10_0000, 0x10_0000);
    let a = pool.allocate(0x4000, 0x1_0000).expect("addresses");
    let b = pool.allocate(0x4000, 0x1_0000).expect("addresses");
    assert_eq!((a, b), (0x10_0000, 0x11_0000));
    assert_eq!(pool.free_bytes(), 0x10_0000 - 0x8000);
    pool.free(a, 0x4000);
    pool.free(b, 0x4000);
    assert_eq!(pool.free_ranges, vec![(0x10_0000, 0x10_0000)]);
    assert_eq!(pool.allocate(0x20_0000, 1), None);
}

#[test]
fn free_ranges_do_not_touch() {
    let mut pool = GpuVaPool::new(0x10_1000, 0x10_0000);
    pool.remove(0x12_0000, 0x1000);
    let before = pool.free_ranges.clone();
    assert_eq!(before, vec![(0x10_1000, 0x1_f000), (0x12_1000, 0xe_0000)]);
    // In the middle of a range, at its end, all of it, and at the start of another.
    for (size, align) in [(0x1000, 0x1_0000), (0x1_0000, 0x1_0000), (0x1_f000, 1), (0x2_0000, 1)] {
        let at = pool.allocate(size, align).expect("addresses");
        for pair in pool.free_ranges.windows(2) {
            assert!(pair[0].0 + pair[0].1 < pair[1].0);
        }
        pool.free(at, size);
        assert_eq!(pool.free_ranges, before);
    }
}

#[test]
fn gpu_books_by_block() {
    let mut gpu = GpuState::new(1, 2, 0x10_0000, 0x10_0000, 0x1000, 7, 8, 9, 10);
    gpu.track_handle(5, 0xab);
    gpu.track_va(5, 0x10_2000, 0x1000, false);
    assert_eq!(gpu.get_handle(5), Some(0xab));
    assert_eq!(gpu.find_block_by_phys(0xab), Some(5));
    assert_eq!(gpu.find_block_by_vaddr(0x10_2000), Some(5));
    assert_eq!(gpu.find_block_by_vaddr(0x10_3000), None);
    assert!(gpu.contains_va(0x10_0000, 0x10_0000));
    assert!(!gpu.contains_va(0x10_0001, 0x10_0000));
    assert_eq!(gpu.vas.free_bytes(), 0x10_0000 - 0x1000);
    gpu.clear_handle(5);
    assert_eq!(gpu.get_handle(5), None);
    gpu.remove_block(5);
    assert_eq!(gpu.get_va_alloc(5), None);
    assert_eq!(gpu.vas.free_bytes(), 0x10_0000 - 0x1000);
    let v = gpu.vas.allocate(0x1000, 1).expect("addresses");
    gpu.track_va(6, v, 0x1000, true);
    gpu.remove_block(6);
    assert_eq!(gpu.vas.free_bytes(), 0x10_0000 - 0x1000);
}

#[test]
fn host_pools_keep_their_books() {
    let mut pool = CpuPool::new(0x1000_0000, 0x10_000);
    let a = pool.allocate(100).expect("a buffer");
    let b = pool.allocate(100).expect("a buffer");
    assert_eq!((a, b), (0x1000_0000, 0x1000_1000));
    pool.track(1, a);
    assert_eq!(pool.get(1), Some(a));
    assert_eq!(pool.untrack(1), Some(a));
    assert_eq!(pool.untrack(1), None);
    pool.free(a, 100);
    pool.free(b, 100);
    assert_eq!(pool.used_bytes(), 0);
    assert_eq!(pool.free_bytes(), 0x10_000);
    assert_eq!(pool.free_ranges, vec![(0x1000_0000, 0x10_000)]);

    let mut paged = polaris::runtime::CpuPool::new(0x1000_0000, 0x3000);
    let c = paged.allocate(1).expect("a page");
    let d = paged.allocate(0x1001).expect("two pages");
    assert_eq!((c, d), (0x1000_0000, 0x1000_1000));
    assert_eq!(paged.used, 0x3000);
    assert_eq!(paged.allocate(1), None);
    paged.free(c, 1);
    assert_eq!(paged.used, 0x2000);
    paged.track(9, d);
    assert_eq!(paged.get(9), Some(d));
    assert_eq!(paged.untrack(9), Some(d));
    paged.free(0, 0x1000);
    assert_eq!(paged.used, 0x2000);
}

// ─── Commands ───────────────────────────────────────────────────────────────

const COMMANDS: [Command; 26] = [
    Command::RegisterGpu,
    Command::RegisterVaRange,
    Command::SessionCreate,
    Command::SessionDestroy,
    Command::SessionGetStats,
    Command::SessionBranch,
    Command::BlockReserve,
    Command::BlockRelease,
    Command::BlockTouch,
    Command::BlockGetState,
    Command::GetDecision,
    Command::CompleteOperation,
    Command::GetGlobalStats,
    Command::ListSessions,
    Command::SetPolicy,
    Command::RegisterVaspace,
    Command::UnregisterVaspace,
    Command::RegisterStaticBlock,
    Command::UnmapStaticBlock,
    Command::RegisterBlockMapping,
    Command::UnmapBlockMappings,
    Command::SpillBlock,
    Command::RegisterBlockBacking,
    Command::ProbeRmPhys,
    Command::ProbeRmCopy,
    Command::RmCopy,
];

#[test]
fn commands_have_numbers_of_their_own() {
    for (i, c) in COMMANDS.iter().enumerate() {
        assert_eq!(Command::from_code(c.code()), Some(*c));
        assert_eq!(c.code() & 0xff, c.nr());
        assert_eq!((c.code() >> 8) & 0xff, MAGIC);
        assert_eq!((c.code() >> 16) & 0x3fff, size_of(&c.record()) as u32);
        assert_eq!(c.code() >> 30, c.dir());
        for d in COMMANDS.iter().skip(i + 1) {
            assert_ne!(c.code(), d.code());
        }
    }
    assert_eq!(Command::from_code(0), None);
    assert_eq!(ioc(3, 0x50, 1, 8), 0xc008_5001);
}

#[test]
fn command_records_have_their_sizes() {
    let sizes = [
        (Command::RegisterGpu, std::mem::size_of::<u64>() * 7),
        (Command::GetDecision, 2184),
        (Command::ListSessions, 520),
        (Command::RmCopy, 120),
        (Command::CompleteOperation, 56),
    ];
    for (c, n) in sizes {
        assert_eq!(size_of(&c.record()), n);
    }
}

#[test]
fn requests_carry_their_command() {
    let arg = PolarisSpillBlockArg { block_id: 3, ..Default::default() };
    let request = spill_block(9, &arg);
    assert_eq!((request.fd, request.cmd, request.arg), (9, Command::SpillBlock.code(), arg));
    let vas = PolarisRegisterVaSpaceArg { gpu_id: 1, ..Default::default() };
    let request = register_vaspace(4, &vas);
    assert_eq!((request.fd, request.cmd, request.arg), (4, Command::RegisterVaspace.code(), vas));
    assert_eq!(outcome(0, 5), Ok(()));
    assert_eq!(outcome(-1, 5), Err(5));
}

// ─── The resource manager ───────────────────────────────────────────────────

fn reply(h_object_new: u32) -> RmReply {
    RmReply { ret: 0, status: 0, h_object_new, h_client: 0, size: 0, offset: 0 }
}

fn plain() -> RmOptions {
    RmOptions { force_contiguous: false, pressure_outside_fb_range: false, pressure_range_base: 0 }
}

#[test]
fn client_is_set_up_in_three_steps() {
    let mut setup = RmSetup::new(5, 1, plain());
    let first = setup.request().expect("a client");
    assert_eq!((first.h_root, first.h_class, first.params_size), (0, 0x41, 120));
    match setup.params() {
        Some(SetupParams::RootClient(p)) => assert_eq!(&p.process_name[..9], b"polarisd\0"),
        other => panic!("{other:?}"),
    }
    assert!(setup.backend().is_none());
    let named = RmReply { h_client: 0xc1, ..reply(0xc0) };
    setup.note(&named).expect("a client");
    let second = setup.request().expect("a device");
    assert_eq!((second.h_root, second.h_object_parent, second.h_class), (0xc1, 0xc1, 0x80));
    match setup.params() {
        Some(SetupParams::Device(p)) => {
            assert_eq!((p.device_id, p.h_client_share, p.va_mode), (1, 0xc1, 2));
        }
        other => panic!("{other:?}"),
    }
    setup.note(&reply(0xd1)).expect("a device");
    let third = setup.request().expect("a part");
    assert_eq!((third.h_object_parent, third.h_class, third.params_size), (0xd1, 0x2080, 4));
    let refused = RmReply { status: 0x51, ..reply(0) };
    assert_eq!(setup.note(&refused), Err(RmError::Status(RmPurpose::MakeSubdevice, 0x51)));
    setup.note(&reply(0xe1)).expect("a part");
    assert_eq!(setup.request(), None);
    assert_eq!(setup.params(), None);
    let backend = setup.backend().expect("a client that is set up");
    assert_eq!((backend.h_client, backend.h_device, backend.h_subdevice), (0xc1, 0xd1, 0xe1));
}

#[test]
fn memory_is_asked_for_as_set() {
    let backend = RmBackend::with_handles(5, 0xc1, 0xd1, 0xe1, plain());
    match backend.alloc_for_block(1, 4096) {
        MemoryStep::Ask(p) => assert_eq!((p.owner, p.size, p.attr, p.flags), (0xc1, 4096, 0, 0)),
        other => panic!("{other:?}"),
    }
    let options = RmOptions {
        force_contiguous: false,
        pressure_outside_fb_range: true,
        pressure_range_base: 0x1000,
    };
    let backend = RmBackend::with_handles(5, 0xc1, 0xd1, 0xe1, options);
    match backend.alloc_for_block(1, 0x1000) {
        MemoryStep::Ask(p) => {
            assert_eq!((p.range_lo, p.range_hi), (0x1000, 0x1fff));
            assert_eq!((p.attr, p.flags), (0x1000_0000, 0x0002_0000));
        }
        other => panic!("{other:?}"),
    }
    let refused = backend.alloc_for_block(1, u64::MAX);
    let overflow = RmError::RangeOverflow { base: 0x1000, size: u64::MAX };
    assert_eq!(refused, MemoryStep::Refused(overflow));
}

#[test]
fn memory_is_given_back_once() {
    let mut backend = RmBackend::with_handles(5, 0xc1, 0xd1, 0xe1, plain());
    assert_eq!(backend.free_block(1), None);
    let got = RmReply { size: 4096, offset: 0x8000, ..reply(7) };
    let allocation = backend.note_allocation(1, &got).expect("memory");
    assert_eq!((allocation.h_memory, allocation.size, allocation.phys_fb_addr), (7, 4096, 0x8000));
    assert_eq!(backend.alloc_for_block(1, 4096), MemoryStep::Have(allocation));
    let free = backend.free_block(1).expect("something to free");
    assert_eq!((free.h_root, free.h_object_parent, free.h_object_old), (0xc1, 0xd1, 7));
    let failed = RmReply { ret: -1, ..reply(0) };
    assert_eq!(backend.note_free(1, &failed), Err(RmError::Ioctl(RmPurpose::FreeMemory)));
    assert!(backend.has_block(1));
    assert_eq!(backend.note_free(1, &reply(0)), Ok(()));
    assert!(!backend.has_block(1));
}

#[test]
fn closing_gives_everything_back() {
    let mut backend = RmBackend::with_handles(5, 0xc1, 0xd1, 0xe1, plain());
    backend.note_allocation(1, &reply(7)).expect("memory");
    backend.note_allocation(2, &reply(8)).expect("memory");
    let olds: Vec<u32> = backend.close().iter().map(|f| f.h_object_old).collect();
    assert_eq!(olds.len(), 5);
    let mut memory = olds[..2].to_vec();
    memory.sort();
    assert_eq!(memory, vec![7, 8]);
    assert_eq!(&olds[2..], &[0xe1, 0xd1, 0xc1]);
    assert_eq!(rm_free(-1, 1, 1, 1), None);
    assert_eq!(rm_free(3, 0, 1, 1), None);
    assert_eq!(rm_free(3, 1, 1, 0), None);
}

#[test]
fn failures_of_the_resource_manager_in_words() {
    let words = |e: RmError| String::from_utf8(e.text()).expect("plain text");
    assert_eq!(
        words(RmError::Status(RmPurpose::MakeMemory, 0x51)),
        "RM_ALLOC daemon RM memory RM status=0x51"
    );
    assert_eq!(words(RmError::Ioctl(RmPurpose::FreeDevice)), "RM_FREE device ioctl failed: ");
    assert_eq!(
        words(RmError::RangeOverflow { base: 16, size: 255 }),
        "RM pressure range overflow base=0x10 size=0xff"
    );
    assert_eq!(nv_ioctl_cmd(NV_ESC_RM_ALLOC, 32), 0xc020_462b);
    let mut name = vec![0u8; 4];
    copy_cstr(&mut name, b"polaris");
    assert_eq!(name, b"pol\0".to_vec());
}
