//! Container statistics: the integer part of what the statistics task
//! computes from each sample of the engine.
use vstd::prelude::*;

verus! {

/// The events of the task that collects the statistics of a container.
#[derive(Debug, PartialEq, Eq, Structural, Clone, Copy)]
pub enum StatsWorkerEvent {
    PollData,
    Kill,
}

/// The part of the memory figures of a sample that the memory usage is
/// computed from (cgroup v1 reports `total_inactive_file`, cgroup v2
/// `inactive_file`).
#[derive(Debug, Clone, Copy)]
pub struct MemoryStat {
    pub total_inactive_file: Option<u64>,
    pub inactive_file: Option<u64>,
}

#[derive(Debug, Clone, Copy)]
pub struct MemoryStats {
    pub usage: Option<u64>,
    pub stats: Option<MemoryStat>,
}

/// `v` is given and below `usage`.
pub open spec fn below(v: Option<u64>, usage: u64) -> bool {
    v matches Some(x) && x < usage
}

/// The memory a container uses, in bytes: its usage less its inactive file
/// cache, taking the cgroup v1 figure where it is below the usage and else
/// the cgroup v2 one; 0 where neither is below the usage or figures are
/// missing.
pub open spec fn mem_usage(stats: Option<MemoryStats>) -> nat {
    match stats {
        None => 0,
        Some(m) => {
            let usage: u64 = match m.usage {
                Some(u) => u,
                None => 0,
            };
            match m.stats {
                None => 0,
                Some(st) => if below(st.total_inactive_file, usage) {
                    (usage - st.total_inactive_file->0) as nat
                } else if below(st.inactive_file, usage) {
                    (usage - st.inactive_file->0) as nat
                } else {
                    0
                },
            }
        },
    }
}

/// The memory a container uses; see `mem_usage`.
pub fn calculate_mem_usage(stats: Option<&MemoryStats>) -> (r: u64)
    ensures
        r == mem_usage(match stats {
            Some(s) => Some(*s),
            None => None,
        }),
{
    if let Some(stats) = stats {
        let usage = match stats.usage {
            Some(u) => u,
            None => 0,
        };
        if let Some(stat) = &stats.stats {
            if let Some(v) = stat.total_inactive_file {
                if v < usage {
                    return usage - v;
                }
            }
            if let Some(v) = stat.inactive_file {
                if v < usage {
                    return usage - v;
                }
            }
        }
    }
    0
}

/// The number of CPUs that the usage is scaled by: the online CPUs that the
/// engine reports, or, where it reports 0, the number of per-CPU figures; 0
/// where there is neither.
pub fn online_cpu_count(online_cpus: Option<u64>, percpu_len: Option<usize>) -> (r: usize)
    ensures
        r == match online_cpus {
            None => 0,
            Some(c) => if c == 0 {
                match percpu_len {
                    Some(n) => n,
                    None => 0,
                }
            } else {
                c as usize
            },
        },
{
    match online_cpus {
        None => 0,
        Some(c) => {
            if c == 0 {
                match percpu_len {
                    Some(n) => n,
                    None => 0,
                }
            } else {
                c as usize
            }
        },
    }
}

/// The CPU figures of the previous sample, which the usage of the next one
/// is measured against.
#[derive(Debug, PartialEq, Eq, Structural, Clone, Copy)]
pub struct CpuBaseline {
    pub prev_cpu: u64,
    pub prev_sys: u64,
}

impl CpuBaseline {
    pub fn new() -> (r: CpuBaseline)
        ensures
            r == (CpuBaseline { prev_cpu: 0, prev_sys: 0 }),
    {
        CpuBaseline { prev_cpu: 0, prev_sys: 0 }
    }

    /// Takes the "previous CPU" figures (total usage, system usage) of a new
    /// sample: gives the baseline to measure that sample against, and keeps
    /// its figures (zeros where it has none) as the next baseline.
    pub fn advance(&mut self, precpu: Option<(u64, u64)>) -> (r: CpuBaseline)
        ensures
            r == *old(self),
            *final(self) == match precpu {
                Some((c, s)) => CpuBaseline { prev_cpu: c, prev_sys: s },
                None => CpuBaseline { prev_cpu: 0, prev_sys: 0 },
            },
    {
        let r = *self;
        match precpu {
            Some((c, s)) => {
                self.prev_cpu = c;
                self.prev_sys = s;
            },
            None => {
                self.prev_cpu = 0;
                self.prev_sys = 0;
            },
        }
        r
    }
}


/// The bytes received (`second` false) or sent (`second` true) over all
/// networks, from the (received, sent) bytes of each network.
pub open spec fn net_total(v: Seq<(u64, u64)>, second: bool) -> nat
    decreases v.len(),
{
    if v.len() == 0 {
        0
    } else {
        net_total(v.drop_last(), second) + (if second {
            v.last().1
        } else {
            v.last().0
        }) as nat
    }
}

proof fn lemma_net_total_monotone(v: Seq<(u64, u64)>, k: int)
    requires
        0 <= k <= v.len(),
    ensures
        net_total(v.take(k), false) <= net_total(v, false),
        net_total(v.take(k), true) <= net_total(v, true),
    decreases v.len() - k,
{
    if k < v.len() {
        lemma_net_total_monotone(v, k + 1);
        assert(v.take(k + 1).drop_last() =~= v.take(k));
    } else {
        assert(v.take(k) =~= v);
    }
}

/// The network I/O of a container: the bytes received and the bytes sent,
/// summed over its networks. The sums must fit in a `u64`.
pub fn net_io_totals(v: &Vec<(u64, u64)>) -> (r: (u64, u64))
    requires
        net_total(v@, false) <= u64::MAX,
        net_total(v@, true) <= u64::MAX,
    ensures
        r.0 == net_total(v@, false),
        r.1 == net_total(v@, true),
{
    let mut rx: u64 = 0;
    let mut tx: u64 = 0;
    let mut i: usize = 0;
    while i < v.len()
        invariant
            i <= v@.len(),
            rx == net_total(v@.take(i as int), false),
            tx == net_total(v@.take(i as int), true),
            net_total(v@, false) <= u64::MAX,
            net_total(v@, true) <= u64::MAX,
        decreases v@.len() - i,
    {
        proof {
            lemma_net_total_monotone(v@, i as int + 1);
            assert(v@.take(i as int + 1).drop_last() =~= v@.take(i as int));
        }
        rx = rx + v[i].0;
        tx = tx + v[i].1;
        i = i + 1;
    }
    assert(v@.take(i as int) =~= v@);
    (rx, tx)
}

/// A block I/O operation whose name starts with `r` or `R` (a read).
pub open spec fn op_is_read(op: Seq<char>) -> bool {
    op.len() > 0 && (op[0] == 'r' || op[0] == 'R')
}

/// A block I/O operation whose name starts with `w` or `W` (a write).
pub open spec fn op_is_write(op: Seq<char>) -> bool {
    op.len() > 0 && (op[0] == 'w' || op[0] == 'W')
}

/// The bytes read (`write` false) or written (`write` true), from the
/// (operation, bytes) entries of the block I/O statistics; entries of other
/// operations count for neither.
pub open spec fn disk_total(v: Seq<(String, u64)>, write: bool) -> nat
    decreases v.len(),
{
    if v.len() == 0 {
        0
    } else {
        let op = v.last().0@;
        disk_total(v.drop_last(), write) + (if (if write {
            op_is_write(op)
        } else {
            op_is_read(op)
        }) {
            v.last().1 as nat
        } else {
            0
        })
    }
}

proof fn lemma_disk_total_monotone(v: Seq<(String, u64)>, k: int)
    requires
        0 <= k <= v.len(),
    ensures
        disk_total(v.take(k), false) <= disk_total(v, false),
        disk_total(v.take(k), true) <= disk_total(v, true),
    decreases v.len() - k,
{
    if k < v.len() {
        lemma_disk_total_monotone(v, k + 1);
        assert(v.take(k + 1).drop_last() =~= v.take(k));
    } else {
        assert(v.take(k) =~= v);
    }
}

/// The disk I/O of a container: the bytes read and the bytes written, from
/// the (operation, bytes) entries of its block I/O statistics. The sums must
/// fit in a `u64`.
pub fn disk_io_totals(v: &Vec<(String, u64)>) -> (r: (u64, u64))
    requires
        disk_total(v@, false) <= u64::MAX,
        disk_total(v@, true) <= u64::MAX,
    ensures
        r.0 == disk_total(v@, false),
        r.1 == disk_total(v@, true),
{
    let mut read: u64 = 0;
    let mut written: u64 = 0;
    let mut i: usize = 0;
    while i < v.len()
        invariant
            i <= v@.len(),
            read == disk_total(v@.take(i as int), false),
            written == disk_total(v@.take(i as int), true),
            disk_total(v@, false) <= u64::MAX,
            disk_total(v@, true) <= u64::MAX,
        decreases v@.len() - i,
    {
        proof {
            lemma_disk_total_monotone(v@, i as int + 1);
            assert(v@.take(i as int + 1).drop_last() =~= v@.take(i as int));
        }
        let op = v[i].0.as_str();
        let value = v[i].1;
        if op.unicode_len() > 0 {
            let c = op.get_char(0);
            if c == 'r' || c == 'R' {
                read = read + value;
            } else if c == 'w' || c == 'W' {
                written = written + value;
            }
        }
        i = i + 1;
    }
    assert(v@.take(i as int) =~= v@);
    (read, written)
}


/// `net_io_totals` for every input: `None` exactly where a sum does not fit
/// in a `u64`.
pub fn try_net_io_totals(v: &Vec<(u64, u64)>) -> (r: Option<(u64, u64)>)
    ensures
        r is None <==> net_total(v@, false) > u64::MAX || net_total(v@, true) > u64::MAX,
        r matches Some(t) ==> t.0 == net_total(v@, false) && t.1 == net_total(v@, true),
{
    let mut rx: u64 = 0;
    let mut tx: u64 = 0;
    let mut i: usize = 0;
    while i < v.len()
        invariant
            i <= v@.len(),
            rx == net_total(v@.take(i as int), false),
            tx == net_total(v@.take(i as int), true),
        decreases v@.len() - i,
    {
        proof {
            lemma_net_total_monotone(v@, i as int + 1);
            assert(v@.take(i as int + 1).drop_last() =~= v@.take(i as int));
        }
        match (rx.checked_add(v[i].0), tx.checked_add(v[i].1)) {
            (Some(a), Some(b)) => {
                rx = a;
                tx = b;
            },
            _ => {
                return None;
            },
        }
        i = i + 1;
    }
    assert(v@.take(i as int) =~= v@);
    Some((rx, tx))
}

/// `disk_io_totals` for every input: `None` exactly where a sum does not
/// fit in a `u64`.
pub fn try_disk_io_totals(v: &Vec<(String, u64)>) -> (r: Option<(u64, u64)>)
    ensures
        r is None <==> disk_total(v@, false) > u64::MAX || disk_total(v@, true) > u64::MAX,
        r matches Some(t) ==> t.0 == disk_total(v@, false) && t.1 == disk_total(v@, true),
{
    let mut read: u64 = 0;
    let mut written: u64 = 0;
    let mut i: usize = 0;
    while i < v.len()
        invariant
            i <= v@.len(),
            read == disk_total(v@.take(i as int), false),
            written == disk_total(v@.take(i as int), true),
        decreases v@.len() - i,
    {
        proof {
            lemma_disk_total_monotone(v@, i as int + 1);
            assert(v@.take(i as int + 1).drop_last() =~= v@.take(i as int));
        }
        let op = v[i].0.as_str();
        let value = v[i].1;
        if op.unicode_len() > 0 {
            let c = op.get_char(0);
            if c == 'r' || c == 'R' {
                match read.checked_add(value) {
                    Some(a) => {
                        read = a;
                    },
                    None => {
                        return None;
                    },
                }
            } else if c == 'w' || c == 'W' {
                match written.checked_add(value) {
                    Some(a) => {
                        written = a;
                    },
                    None => {
                        return None;
                    },
                }
            }
        }
        i = i + 1;
    }
    assert(v@.take(i as int) =~= v@);
    Some((read, written))
}


/// Law: the memory a container uses is its usage less its inactive file
/// cache. Where the cgroup v1 figure (`total_inactive_file`) is below the
/// usage, that figure is taken; otherwise, where the cgroup v2 figure
/// (`inactive_file`) is given and below the usage, that one is, whatever the
/// cgroup v1 figure was; otherwise, or with figures missing, the usage is 0.
/// It is never more than the usage.
pub proof fn lemma_mem_usage(usage: Option<u64>, v1: Option<u64>, v2: Option<u64>)
    ensures
        ({
            let u: u64 = match usage {
                Some(u) => u,
                None => 0,
            };
            let m = mem_usage(
                Some(
                    MemoryStats {
                        usage,
                        stats: Some(MemoryStat { total_inactive_file: v1, inactive_file: v2 }),
                    },
                ),
            );
            &&& m <= u
            &&& (v1 is Some && v1->0 < u) ==> m == u - v1->0
            &&& !(v1 is Some && v1->0 < u) && (v2 is Some && v2->0 < u) ==> m == u - v2->0
            &&& !(v1 is Some && v1->0 < u) && !(v2 is Some && v2->0 < u) ==> m == 0
        }),
        mem_usage(None) == 0,
        mem_usage(Some(MemoryStats { usage, stats: None })) == 0,
{
}

/// Law: the totals of the network I/O add up: the totals of two lists of
/// networks are the sums of the totals of each, and one network counts its
/// received bytes as received and its sent bytes as sent.
pub proof fn lemma_net_total_adds(a: Seq<(u64, u64)>, b: Seq<(u64, u64)>, rx: u64, tx: u64)
    ensures
        net_total(a + b, false) == net_total(a, false) + net_total(b, false),
        net_total(a + b, true) == net_total(a, true) + net_total(b, true),
        net_total(seq![(rx, tx)], false) == rx,
        net_total(seq![(rx, tx)], true) == tx,
    decreases b.len(),
{
    if b.len() > 0 {
        lemma_net_total_adds(a, b.drop_last(), rx, tx);
        assert((a + b).drop_last() =~= a + b.drop_last());
    } else {
        assert(a + b =~= a);
    }
    let one = seq![(rx, tx)];
    assert(one.drop_last() =~= Seq::<(u64, u64)>::empty());
    assert(net_total(one.drop_last(), false) == 0);
    assert(net_total(one.drop_last(), true) == 0);
}

/// Law: the totals of the disk I/O add up over the entries, and one entry
/// counts as read where its operation starts with `r` or `R`, as written where
/// it starts with `w` or `W`, and as neither otherwise.
pub proof fn lemma_disk_total_adds(a: Seq<(String, u64)>, b: Seq<(String, u64)>, op: String, v: u64)
    ensures
        disk_total(a + b, false) == disk_total(a, false) + disk_total(b, false),
        disk_total(a + b, true) == disk_total(a, true) + disk_total(b, true),
        disk_total(seq![(op, v)], false) == (if op@.len() > 0 && (op@[0] == 'r' || op@[0] == 'R') {
            v as nat
        } else {
            0
        }),
        disk_total(seq![(op, v)], true) == (if op@.len() > 0 && (op@[0] == 'w' || op@[0] == 'W') {
            v as nat
        } else {
            0
        }),
    decreases b.len(),
{
    if b.len() > 0 {
        lemma_disk_total_adds(a, b.drop_last(), op, v);
        assert((a + b).drop_last() =~= a + b.drop_last());
    } else {
        assert(a + b =~= a);
    }
    let one = seq![(op, v)];
    assert(one.drop_last() =~= Seq::<(String, u64)>::empty());
    assert(disk_total(one.drop_last(), false) == 0);
    assert(disk_total(one.drop_last(), true) == 0);
    assert(one.last().0@ == op@);
}

} // verus!
