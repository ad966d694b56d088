//! What the control tool asks of the device, and how it shows the answers.

use crate::abi::{
    PolarisGetGlobalStatsArg, PolarisSessionCreateArg, PolarisSessionDestroyArg,
    PolarisSessionGetStatsArg,
};
use crate::stats::MIB;
use crate::text::{decimal, push_decimal, push_signed_decimal, push_str, signed_decimal};
use vstd::prelude::*;
use vstd::string::*;

verus! {

/// A label, a number, and the end of the line.
pub open spec fn row(label: &str, n: int) -> Seq<u8> {
    label.spec_bytes() + decimal(n as nat) + "\n".spec_bytes()
}

/// A label, a number of MiB, and the end of the line.
pub open spec fn mib_row(label: &str, bytes: u64) -> Seq<u8> {
    label.spec_bytes() + decimal((bytes / MIB) as nat) + " MiB\n".spec_bytes()
}

/// Append a label, a number, and the end of the line.
fn push_row(out: &mut Vec<u8>, label: &str, n: u64)
    ensures
        final(out)@ == old(out)@ + row(label, n as int),
{
    push_str(out, label);
    push_decimal(out, n);
    push_str(out, "\n");
    assert(out@ =~= old(out)@ + row(label, n as int));
}

/// Append a label, a number of MiB, and the end of the line.
fn push_mib_row(out: &mut Vec<u8>, label: &str, bytes: u64)
    ensures
        final(out)@ == old(out)@ + mib_row(label, bytes),
{
    push_str(out, label);
    push_decimal(out, bytes / MIB);
    push_str(out, " MiB\n");
    assert(out@ =~= old(out)@ + mib_row(label, bytes));
}

/// The rows on sessions and blocks.
pub open spec fn table_rows(arg: PolarisGetGlobalStatsArg) -> Seq<u8> {
    "POLARIS Global Statistics\n".spec_bytes() + "=========================\n".spec_bytes() + row(
        "GPUs:              ",
        arg.total_gpus as int,
    ) + row("Sessions:          ", arg.total_sessions as int) + row(
        "Blocks:            ",
        arg.total_blocks as int,
    ) + row("  Resident:        ", arg.blocks_resident as int) + row(
        "  Offloaded:       ",
        arg.blocks_offloaded as int,
    ) + row("  Evicted:         ", arg.blocks_evicted as int)
}

/// The rows on memory.
pub open spec fn memory_rows(arg: PolarisGetGlobalStatsArg) -> Seq<u8> {
    "GPU memory:\n".spec_bytes() + mib_row("  Total:           ", arg.total_gpu_bytes) + mib_row(
        "  Used:            ",
        arg.used_gpu_bytes,
    ) + mib_row("  Shared:          ", arg.shared_gpu_bytes) + mib_row(
        "  Private:         ",
        arg.private_gpu_bytes,
    ) + "CPU pool:\n".spec_bytes() + mib_row("  Total:           ", arg.cpu_pool_total) + mib_row(
        "  Used:            ",
        arg.cpu_pool_used,
    )
}

/// The rows on private copies.
pub open spec fn cow_rows(arg: PolarisGetGlobalStatsArg) -> Seq<u8> {
    "COW:\n".spec_bytes() + row("  Break count:     ", arg.cow_break_count as int) + row(
        "  Copy bytes:      ",
        arg.cow_copy_bytes as int,
    )
}

/// Totals over the whole device, as they are shown.
pub fn cmd_stats(arg: &PolarisGetGlobalStatsArg) -> (r: Vec<u8>)
    ensures
        r@ == table_rows(*arg) + memory_rows(*arg) + cow_rows(*arg),
{
    let mut out: Vec<u8> = Vec::new();
    push_str(&mut out, "POLARIS Global Statistics\n");
    push_str(&mut out, "=========================\n");
    push_row(&mut out, "GPUs:              ", arg.total_gpus as u64);
    push_row(&mut out, "Sessions:          ", arg.total_sessions as u64);
    push_row(&mut out, "Blocks:            ", arg.total_blocks as u64);
    push_row(&mut out, "  Resident:        ", arg.blocks_resident as u64);
    push_row(&mut out, "  Offloaded:       ", arg.blocks_offloaded as u64);
    push_row(&mut out, "  Evicted:         ", arg.blocks_evicted as u64);
    assert(out@ =~= table_rows(*arg));
    push_str(&mut out, "GPU memory:\n");
    push_mib_row(&mut out, "  Total:           ", arg.total_gpu_bytes);
    push_mib_row(&mut out, "  Used:            ", arg.used_gpu_bytes);
    push_mib_row(&mut out, "  Shared:          ", arg.shared_gpu_bytes);
    push_mib_row(&mut out, "  Private:         ", arg.private_gpu_bytes);
    push_str(&mut out, "CPU pool:\n");
    push_mib_row(&mut out, "  Total:           ", arg.cpu_pool_total);
    push_mib_row(&mut out, "  Used:            ", arg.cpu_pool_used);
    assert(out@ =~= table_rows(*arg) + memory_rows(*arg));
    push_str(&mut out, "COW:\n");
    push_row(&mut out, "  Break count:     ", arg.cow_break_count);
    push_row(&mut out, "  Copy bytes:      ", arg.cow_copy_bytes);
    assert(out@ =~= table_rows(*arg) + memory_rows(*arg) + cow_rows(*arg));
    out
}

/// The record that opens a session.
pub fn cmd_create_session(
    gpu: u32,
    beam: u32,
    vas_bytes: u64,
    bytes_per_token: u64,
    priority: u32,
) -> (r: PolarisSessionCreateArg)
    ensures
        r == (PolarisSessionCreateArg {
            session_id: 0,
            home_gpu: gpu,
            beam_width: beam,
            gpu_vas_bytes: vas_bytes,
            bytes_per_token,
            priority,
            _reserved: 0,
            _reserved2: [0u64, 0u64],
        }),
{
    PolarisSessionCreateArg {
        session_id: 0,
        home_gpu: gpu,
        beam_width: beam,
        gpu_vas_bytes: vas_bytes,
        bytes_per_token,
        priority,
        _reserved: 0,
        _reserved2: [0u64, 0u64],
    }
}

/// The record that closes a session.
pub fn cmd_destroy_session(session_id: u64) -> (r: PolarisSessionDestroyArg)
    ensures
        r == (PolarisSessionDestroyArg { session_id, _reserved: [0u64, 0u64, 0u64, 0u64] }),
{
    PolarisSessionDestroyArg { session_id, _reserved: [0u64, 0u64, 0u64, 0u64] }
}

/// A session as it is shown.
pub open spec fn session_row(info: PolarisSessionGetStatsArg) -> Seq<u8> {
    "  id=".spec_bytes() + decimal(info.session_id as nat) + " gpu=".spec_bytes() + decimal(
        info.home_gpu as nat,
    ) + " beam=".spec_bytes() + decimal(info.beam_width as nat) + " blocks=".spec_bytes() + decimal(
        info.num_blocks as nat,
    ) + " vas_bytes=".spec_bytes() + decimal(info.total_bytes as nat) + "\n".spec_bytes()
}

/// A session that could not be looked up, as it is shown.
pub open spec fn missing_row(session_id: u64, errno: i32) -> Seq<u8> {
    "  id=".spec_bytes() + decimal(session_id as nat)
        + " (error fetching details: errno ".spec_bytes() + signed_decimal(errno as int)
        + ")\n".spec_bytes()
}

/// A session as it is shown, or that it could not be looked up.
pub fn list_row(session_id: u64, details: &Result<PolarisSessionGetStatsArg, i32>) -> (r: Vec<u8>)
    ensures
        r@ == (match *details {
            Ok(info) => session_row(PolarisSessionGetStatsArg { session_id, ..info }),
            Err(errno) => missing_row(session_id, errno),
        }),
{
    let mut out: Vec<u8> = Vec::new();
    match details {
        Ok(info) => {
            push_str(&mut out, "  id=");
            push_decimal(&mut out, session_id);
            push_str(&mut out, " gpu=");
            push_decimal(&mut out, info.home_gpu as u64);
            push_str(&mut out, " beam=");
            push_decimal(&mut out, info.beam_width as u64);
            push_str(&mut out, " blocks=");
            push_decimal(&mut out, info.num_blocks as u64);
            push_str(&mut out, " vas_bytes=");
            push_decimal(&mut out, info.total_bytes);
            push_str(&mut out, "\n");
            assert(out@ =~= session_row(PolarisSessionGetStatsArg { session_id, ..*info }));
        },
        Err(errno) => {
            push_str(&mut out, "  id=");
            push_decimal(&mut out, session_id);
            push_str(&mut out, " (error fetching details: errno ");
            push_signed_decimal(&mut out, *errno);
            push_str(&mut out, ")\n");
            assert(out@ =~= missing_row(session_id, *errno));
        },
    }
    out
}

} // verus!
