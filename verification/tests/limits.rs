//! The limits of machine integers, told apart at run time, and small facts of
//! the interfaces.

use polaris::abi::{
    PolarisDecisionOp, PolarisRegisterGpuArg, PolarisRegisterVaRangeArg,
    PolarisRegisterVaSpaceArg, PolarisSessionBranchArg, PolarisSessionCreateArg,
    PolarisUnmapBlockMappingsArg, PolarisUnregisterVaSpaceArg,
};
use polaris::device::PolarisDevice;
use polaris::dispatch::decision_name;
use polaris::ioctl::{unmap_block_mappings, unregister_vaspace, Command};
use polaris::kv::{RuntimeConfig, RuntimeInner};
use polaris::limits::can_snap;
use polaris::seqs::keys_of;
use polaris::state::PolarisInner;
use std::collections::HashMap;

const MIB: u64 = 1024 * 1024;
const BASE: u64 = 0x1000_0000_0000;

fn ready() -> (PolarisInner, PolarisDevice) {
    let mut inner = PolarisInner::new();
    let mut dev = PolarisDevice::open();
    let gpu = PolarisRegisterGpuArg {
        total_bytes: 1 << 34,
        budget_bytes: 1 << 33,
        ..Default::default()
    };
    inner.register_gpu(&mut dev, gpu).expect("register a GPU");
    let range = PolarisRegisterVaRangeArg {
        base: BASE,
        length: 64 * MIB,
        block_size: 2 * MIB,
        ..Default::default()
    };
    inner.register_va_range(&mut dev, range).expect("register a range");
    (inner, dev)
}

#[test]
fn rounding_stops_at_the_last_number() {
    assert!(can_snap(5, 4096));
    assert!(can_snap(u64::MAX, 0));
    assert!(can_snap(u64::MAX, 1));
    assert!(!can_snap(u64::MAX, 2));
    assert!(can_snap(u64::MAX - 4095, 4096));
    assert!(!can_snap(u64::MAX - 4094, 4096));
}

#[test]
fn sessions_stop_at_the_last_number() {
    let (mut inner, _dev) = ready();
    let arg = PolarisSessionCreateArg { gpu_vas_bytes: MIB, ..Default::default() };
    assert!(inner.can_create(&arg));
    assert!(!inner.can_create(&PolarisSessionCreateArg { gpu_vas_bytes: u64::MAX, ..arg }));
    let parent = inner.session_create(arg).expect("a session").session_id;
    let branch = PolarisSessionBranchArg { parent_session_id: parent, ..Default::default() };
    assert!(inner.can_branch(&branch));
    inner.next_session_id = u64::MAX;
    assert!(!inner.can_create(&arg));
    assert!(!inner.can_branch(&branch));
}

#[test]
fn kv_memory_stops_at_the_last_number() {
    let cfg = RuntimeConfig {
        gpu_id: 0,
        device_ordinal: 0,
        total_bytes: 1 << 34,
        budget_bytes: 1 << 33,
        cpu_pool_bytes: 0,
        va_reserve_bytes: 64 * MIB,
        block_size: 2 * MIB,
    };
    let inner = RuntimeInner::new(&cfg, 2 * MIB, BASE, 64 * MIB, 0, 0);
    assert!(inner.can_alloc_kv(3 * MIB, 0));
    assert!(!inner.can_alloc_kv(u64::MAX, 0));
    assert!(!inner.can_alloc_kv(MIB, u64::MAX));
}

#[test]
fn clearing_the_fast_tables_forgets_address_spaces() {
    let (mut inner, _dev) = ready();
    let mut worker = PolarisDevice::open();
    let space = PolarisRegisterVaSpaceArg {
        rm_client_token: 0xc1,
        va_space_token: 0xd1,
        managed_base: BASE,
        managed_length: MIB,
        ..Default::default()
    };
    inner.register_va_space(&mut worker, space, 1).expect("register a space");
    assert!(inner.fast_va_spaces.iter().any(|s| s.va_space_token == 0xd1));
    inner.fast_vaspace_clear_all();
    assert!(inner.fast_va_spaces.iter().all(|s| s.va_space_token == 0));
    assert_eq!(inner.va_spaces.len(), 1);
}

#[test]
fn decisions_have_names() {
    assert_eq!(decision_name(PolarisDecisionOp::CowBreak.to_u32()), "COW_BREAK");
    assert_eq!(decision_name(PolarisDecisionOp::Alloc.to_u32()), "ALLOC");
    assert_eq!(decision_name(99), "UNKNOWN");
}

#[test]
fn withdrawals_carry_their_command() {
    let arg = PolarisUnregisterVaSpaceArg { va_space_token: 5, ..Default::default() };
    let request = unregister_vaspace(3, &arg);
    assert_eq!((request.fd, request.arg), (3, arg));
    assert_eq!(Command::from_code(request.cmd), Some(Command::UnregisterVaspace));
    let arg = PolarisUnmapBlockMappingsArg { block_id: 7, ..Default::default() };
    let request = unmap_block_mappings(4, &arg);
    assert_eq!((request.fd, request.arg), (4, arg));
    assert_eq!(Command::from_code(request.cmd), Some(Command::UnmapBlockMappings));
}

#[test]
fn keys_are_listed_once() {
    let table: HashMap<u64, u8> = [(3, 0), (1, 0), (2, 0)].into_iter().collect();
    let mut keys = keys_of(&table);
    keys.sort();
    assert_eq!(keys, vec![1, 2, 3]);
}
