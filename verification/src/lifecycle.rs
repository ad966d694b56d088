//! What an executor makes of the device's statistics when it starts.

use crate::parse::{chars_of, eq_text, parse_u64, parsed_u64, part, trim, trimmed};
use crate::seqs::{as_index, find, first_index, lemma_first_index};
use vstd::prelude::*;

verus! {

/// The device's statistics, as far as an executor reads them.
#[derive(Clone, Copy, Debug, PartialEq, Eq, Default)]
pub struct KernelStats {
    pub sessions: u64,
    pub blocks: u64,
    pub blocks_resident: u64,
    pub blocks_offloaded: u64,
    pub blocks_evicted: u64,
    pub blocks_pending: u64,
    pub gpus: u64,
    pub gpus_unhealthy: u64,
    pub daemon_attached: u64,
    pub gpu_total_mib: u64,
    pub gpu_used_mib: u64,
    pub cpu_pool_mib: u64,
    pub cpu_used_mib: u64,
    pub shared_mib: u64,
    pub private_mib: u64,
    pub pending_decisions: u64,
}

/// A character.
pub open spec fn is_char(c: char) -> spec_fn(char) -> bool {
    |x: char| x == c
}

/// Where a character comes first.
fn find_char(s: &Vec<char>, c: char) -> (r: Option<usize>)
    ensures
        as_index(r) == first_index(s@, is_char(c)),
{
    find(
        s,
        |x: &char| -> (r: bool)
            ensures
                r == (*x == c)
            { *x == c },
        Ghost(is_char(c)),
    )
}

/// What a line says of a key: a line is a key and a value with a colon between
/// them, and white space around them does not count.
pub open spec fn value_in_line(line: Seq<char>, key: Seq<char>) -> Option<Seq<char>> {
    let t = trimmed(line);
    match first_index(t, is_char(':')) {
        Some(i) => if trimmed(t.take(i)) == key {
            Some(trimmed(t.skip(i + 1)))
        } else {
            None
        },
        None => None,
    }
}

/// What a line says of a key.
fn find_in_line(line: &Vec<char>, key: &str) -> (r: Option<Vec<char>>)
    ensures
        match r {
            Some(v) => value_in_line(line@, key@) == Some(v@),
            None => value_in_line(line@, key@) is None,
        },
{
    let t = trim(line);
    proof {
        lemma_first_index(t@, is_char(':'));
    }
    match find_char(&t, ':') {
        Some(i) => {
            let name = part(&t, 0, i);
            assert(name@ =~= t@.take(i as int));
            if eq_text(&trim(&name), key) {
                let value = part(&t, i + 1, t.len());
                assert(value@ =~= t@.skip(i as int + 1));
                Some(trim(&value))
            } else {
                None
            }
        },
        None => None,
    }
}

/// What a text says of a key last, over what was known before.
pub open spec fn value_in_text(s: Seq<char>, key: Seq<char>, known: Option<Seq<char>>) -> Option<
    Seq<char>,
>
    decreases s.len(),
{
    let end = match first_index(s, is_char('\n')) {
        Some(i) => i,
        None => s.len() as int,
    };
    let now = match value_in_line(s.take(end), key) {
        Some(v) => Some(v),
        None => known,
    };
    if 0 <= end < s.len() {
        value_in_text(s.skip(end + 1), key, now)
    } else {
        now
    }
}

/// The number that a text gives for a key, or zero where it gives none.
pub open spec fn stat_of(text: Seq<char>, key: Seq<char>) -> u64 {
    match value_in_text(text, key, None) {
        Some(v) => match parsed_u64(v) {
            Some(n) => n,
            None => 0,
        },
        None => 0,
    }
}

/// The number that a text gives for a key, or zero where it gives none.
fn get_u64(text: &Vec<char>, key: &str) -> (r: u64)
    ensures
        r == stat_of(text@, key@),
{
    let mut known: Option<Vec<char>> = None;
    let mut from: usize = 0;
    let ghost mut seen: Option<Seq<char>> = None;
    assert(text@.skip(0) =~= text@);
    loop
        invariant
            from <= text@.len(),
            match known {
                Some(v) => seen == Some(v@),
                None => seen is None,
            },
            value_in_text(text@.skip(from as int), key@, seen) == value_in_text(
                text@,
                key@,
                None,
            ),
        ensures
            match known {
                Some(v) => value_in_text(text@, key@, None) == Some(v@),
                None => value_in_text(text@, key@, None) is None,
            },
        decreases text@.len() - from,
    {
        let rest = part(text, from, text.len());
        proof {
            assert(rest@ =~= text@.skip(from as int));
            lemma_first_index(rest@, is_char('\n'));
        }
        let found = find_char(&rest, '\n');
        let end = match found {
            Some(i) => i,
            None => rest.len(),
        };
        let line = part(&rest, 0, end);
        assert(line@ =~= rest@.take(end as int));
        if let Some(v) = find_in_line(&line, key) {
            proof {
                seen = Some(v@);
            }
            known = Some(v);
        }
        if end >= rest.len() {
            break;
        }
        proof {
            assert(rest@.skip(end as int + 1) =~= text@.skip(from as int + end as int + 1));
        }
        from = from + end + 1;
    }
    match known {
        Some(v) => match parse_u64(&v) {
            Some(n) => n,
            None => 0,
        },
        None => 0,
    }
}

/// The statistics that a text gives.
pub open spec fn stats_in(text: Seq<char>) -> KernelStats {
    KernelStats {
        sessions: stat_of(text, "sessions"@),
        blocks: stat_of(text, "blocks"@),
        blocks_resident: stat_of(text, "resident"@),
        blocks_offloaded: stat_of(text, "offloaded"@),
        blocks_evicted: stat_of(text, "evicted"@),
        blocks_pending: stat_of(text, "pending"@),
        gpus: stat_of(text, "gpus"@),
        gpus_unhealthy: stat_of(text, "unhealthy"@),
        daemon_attached: stat_of(text, "daemon"@),
        gpu_total_mib: stat_of(text, "gpu_total_mib"@),
        gpu_used_mib: stat_of(text, "gpu_used_mib"@),
        cpu_pool_mib: stat_of(text, "cpu_pool_mib"@),
        cpu_used_mib: stat_of(text, "cpu_used_mib"@),
        shared_mib: stat_of(text, "shared_mib"@),
        private_mib: stat_of(text, "private_mib"@),
        pending_decisions: stat_of(text, "pending_decs"@),
    }
}

/// The statistics that a text gives.
pub fn read_kernel_stats(raw: &str) -> (r: KernelStats)
    ensures
        r == stats_in(raw@),
{
    let text = chars_of(raw);
    KernelStats {
        sessions: get_u64(&text, "sessions"),
        blocks: get_u64(&text, "blocks"),
        blocks_resident: get_u64(&text, "resident"),
        blocks_offloaded: get_u64(&text, "offloaded"),
        blocks_evicted: get_u64(&text, "evicted"),
        blocks_pending: get_u64(&text, "pending"),
        gpus: get_u64(&text, "gpus"),
        gpus_unhealthy: get_u64(&text, "unhealthy"),
        daemon_attached: get_u64(&text, "daemon"),
        gpu_total_mib: get_u64(&text, "gpu_total_mib"),
        gpu_used_mib: get_u64(&text, "gpu_used_mib"),
        cpu_pool_mib: get_u64(&text, "cpu_pool_mib"),
        cpu_used_mib: get_u64(&text, "cpu_used_mib"),
        shared_mib: get_u64(&text, "shared_mib"),
        private_mib: get_u64(&text, "private_mib"),
        pending_decisions: get_u64(&text, "pending_decs"),
    }
}

/// Something that the statistics tell an executor when it starts.
#[derive(Clone, Copy, PartialEq, Eq, Structural, Debug)]
pub enum Notice {
    /// The device knows of no executor.
    NotAttached,
    /// The device knows of so many executors.
    Attached(u64),
    /// Sessions are left from before.
    SessionsLeft(u64),
    /// Decisions are left from before.
    DecisionsLeft(u64),
    /// Blocks were evicted.
    Evicted(u64),
    /// Blocks must be reloaded before use.
    Offloaded(u64),
    /// GPUs do not work.
    Unhealthy(u64),
    /// How many blocks there are, resident, offloaded and evicted.
    Blocks(u64, u64, u64, u64),
    /// How much memory is used, of how much.
    Memory(u64, u64),
}

/// The notice, if a number is not zero.
pub open spec fn if_any(n: u64, notice: Notice) -> Seq<Notice> {
    if n > 0 {
        seq![notice]
    } else {
        seq![]
    }
}

/// What the statistics tell an executor when it starts, in order.
pub open spec fn notices(stats: KernelStats) -> Seq<Notice> {
    seq![
        if stats.daemon_attached == 0 {
            Notice::NotAttached
        } else {
            Notice::Attached(stats.daemon_attached)
        },
    ] + if_any(stats.sessions, Notice::SessionsLeft(stats.sessions)) + if_any(
        stats.pending_decisions,
        Notice::DecisionsLeft(stats.pending_decisions),
    ) + if_any(stats.blocks_evicted, Notice::Evicted(stats.blocks_evicted)) + if_any(
        stats.blocks_offloaded,
        Notice::Offloaded(stats.blocks_offloaded),
    ) + if_any(stats.gpus_unhealthy, Notice::Unhealthy(stats.gpus_unhealthy)) + seq![
        Notice::Blocks(
            stats.blocks,
            stats.blocks_resident,
            stats.blocks_offloaded,
            stats.blocks_evicted,
        ),
        Notice::Memory(stats.gpu_used_mib, stats.gpu_total_mib),
    ]
}

/// The state is that of a fresh start or a clean restart: nothing an operator
/// should look into.
pub open spec fn looks_clean(stats: KernelStats) -> bool {
    &&& stats.daemon_attached != 0
    &&& stats.sessions == 0
    &&& stats.pending_decisions == 0
    &&& stats.blocks_offloaded == 0
    &&& stats.gpus_unhealthy == 0
}

/// Append a notice, if a number is not zero.
fn push_if_any(out: &mut Vec<Notice>, n: u64, notice: Notice)
    ensures
        final(out)@ == old(out)@ + if_any(n, notice),
{
    if n > 0 {
        out.push(notice);
    }
    assert(out@ =~= old(out)@ + if_any(n, notice));
}

/// What the statistics tell an executor when it starts, and whether the state
/// looks clean.
pub fn reconcile(stats: &KernelStats) -> (r: (Vec<Notice>, bool))
    ensures
        r.0@ == notices(*stats),
        r.1 == looks_clean(*stats),
{
    let mut out: Vec<Notice> = Vec::new();
    if stats.daemon_attached == 0 {
        out.push(Notice::NotAttached);
    } else {
        out.push(Notice::Attached(stats.daemon_attached));
    }
    push_if_any(&mut out, stats.sessions, Notice::SessionsLeft(stats.sessions));
    push_if_any(&mut out, stats.pending_decisions, Notice::DecisionsLeft(stats.pending_decisions));
    push_if_any(&mut out, stats.blocks_evicted, Notice::Evicted(stats.blocks_evicted));
    push_if_any(&mut out, stats.blocks_offloaded, Notice::Offloaded(stats.blocks_offloaded));
    push_if_any(&mut out, stats.gpus_unhealthy, Notice::Unhealthy(stats.gpus_unhealthy));
    out.push(
        Notice::Blocks(
            stats.blocks,
            stats.blocks_resident,
            stats.blocks_offloaded,
            stats.blocks_evicted,
        ),
    );
    out.push(Notice::Memory(stats.gpu_used_mib, stats.gpu_total_mib));
    assert(out@ =~= notices(*stats));
    let clean = stats.daemon_attached != 0 && stats.sessions == 0 && stats.pending_decisions == 0
        && stats.blocks_offloaded == 0 && stats.gpus_unhealthy == 0;
    (out, clean)
}

/// A line that names a key and a number reads back as that number.
pub proof fn law_stat_line_reads_back(key: Seq<char>, n: u64)
    requires
        key.len() > 0,
        !crate::parse::is_white(key[0]),
        !crate::parse::is_white(key.last()),
        forall|i: int| 0 <= i < key.len() ==> #[trigger] key[i] != ':' && key[i] != '\n',
    ensures
        stat_of(
            key + seq![':', ' '] + crate::parse::as_chars(crate::text::decimal(n as nat)) + seq!['\n'],
            key,
        ) == n,
{
    let digits = crate::parse::as_chars(crate::text::decimal(n as nat));
    crate::parse::law_decimal_reads_back(n);
    crate::parse::lemma_decimal_is_digits(n as nat);
    let line = key + seq![':', ' '] + digits;
    let text = line + seq!['\n'];
    let k = key.len() as int;
    assert forall|i: int| 0 <= i < line.len() implies #[trigger] text[i] != '\n' by {
        if i < k {
            assert(text[i] == key[i]);
        } else if i >= k + 2 {
            assert(text[i] == digits[i - k - 2]);
        }
    }
    assert(crate::seqs::is_first(text, is_char('\n'), line.len() as int));
    crate::seqs::lemma_first_index_is(text, is_char('\n'), line.len() as int);
    assert(text.take(line.len() as int) =~= line);
    // The line itself.
    assert(line[0] == key[0]);
    assert(line.last() == digits.last());
    assert(digits.last() == digits[digits.len() - 1]);
    assert(trimmed(line) == line);
    assert forall|i: int| 0 <= i < k implies #[trigger] line[i] != ':' by {
        assert(line[i] == key[i]);
    }
    assert(crate::seqs::is_first(line, is_char(':'), k));
    crate::seqs::lemma_first_index_is(line, is_char(':'), k);
    assert(line.take(k) =~= key);
    assert(trimmed(key) == key);
    let value = line.skip(k + 1);
    assert(value[0] == ' ');
    assert(value.skip(1) =~= digits);
    assert(trimmed(digits) == digits);
    assert(value_in_line(line, key) == Some(digits));
    // Nothing follows.
    let rest = text.skip(line.len() as int + 1);
    assert(rest =~= Seq::empty());
    crate::seqs::lemma_first_index(rest, is_char('\n'));
    assert(rest.take(0) =~= Seq::empty());
    assert(trimmed(Seq::empty()) == Seq::<char>::empty());
    crate::seqs::lemma_first_index(Seq::<char>::empty(), is_char(':'));
    assert(value_in_text(rest, key, Some(digits)) == Some(digits));
}

} // verus!
