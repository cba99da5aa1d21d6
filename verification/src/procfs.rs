//! Linux/Android procfs and KGSL sysfs text: `/proc/meminfo`,
//! `/proc/self/status`, `/proc/stat`, `/proc/self/stat`, and the Adreno
//! `gpubusy` / clock files, plus the two-sample CPU and GPU load samplers.

use vstd::prelude::*;
use crate::text::{
    chars_of, seq_views, split_chars, split_spec, strip_prefix, strip_prefix_spec, trim,
    trim_spec, trim_start, trim_start_spec, ws_split, ws_tokens,
};
use crate::num::{parse_u64, parse_unsigned_spec};

verus! {

/// A line without the carriage return that ended it.
pub open spec fn strip_cr(s: Seq<char>) -> Seq<char> {
    if s.len() > 0 && s.last() == '\r' {
        s.drop_last()
    } else {
        s
    }
}

/// `str::lines`: the text split at `\n`, a `\r` before each `\n` removed, and no
/// empty last line for text that ends with `\n`.
pub open spec fn lines_spec(s: Seq<char>) -> Seq<Seq<char>> {
    let p = split_spec(s, '\n');
    let body = p.drop_last().map_values(|l: Seq<char>| strip_cr(l));
    if p.last().len() == 0 {
        body
    } else {
        body.push(p.last())
    }
}

/// Splits text into lines as `str::lines` does.
pub fn lines(s: &str) -> (res: Vec<Vec<char>>)
    ensures
        seq_views(res@) == lines_spec(s@),
{
    let chars = chars_of(s);
    let parts = split_chars(chars.as_slice(), '\n');
    proof {
        crate::text::lemma_split_nonempty(s@, '\n');
    }
    let n = parts.len();
    let mut res: Vec<Vec<char>> = Vec::new();
    let ghost p = split_spec(s@, '\n');
    for i in 0..n - 1
        invariant
            n == parts@.len(),
            n >= 1,
            seq_views(parts@) == p,
            p == split_spec(s@, '\n'),
            seq_views(res@) == p.drop_last().map_values(|l: Seq<char>| strip_cr(l)).take(i as int),
    {
        let part = &parts[i];
        proof {
            assert(seq_views(parts@)[i as int] == part@);
        }
        let m = part.len();
        let line = if m > 0 && part[m - 1] == '\r' {
            let mut t: Vec<char> = Vec::new();
            for j in 0..m - 1
                invariant
                    m == part@.len(),
                    m > 0,
                    t@ == part@.take(j as int),
            {
                t.push(part[j]);
                proof {
                    assert(part@.take(j + 1) == part@.take(j as int).push(part@[j as int]));
                }
            }
            proof {
                assert(part@.take(m - 1) == part@.drop_last());
            }
            t
        } else {
            let mut t: Vec<char> = Vec::new();
            for j in 0..m
                invariant
                    m == part@.len(),
                    t@ == part@.take(j as int),
            {
                t.push(part[j]);
                proof {
                    assert(part@.take(j + 1) == part@.take(j as int).push(part@[j as int]));
                }
            }
            proof {
                assert(part@.take(m as int) == part@);
            }
            t
        };
        let ghost old_res = seq_views(res@);
        res.push(line);
        proof {
            let body = p.drop_last().map_values(|l: Seq<char>| strip_cr(l));
            assert(body[i as int] == strip_cr(part@));
            assert(seq_views(res@) =~= old_res.push(strip_cr(part@)));
            assert(body.take(i + 1) =~= body.take(i as int).push(body[i as int]));
        }
    }
    proof {
        let body = p.drop_last().map_values(|l: Seq<char>| strip_cr(l));
        assert(body.take((n - 1) as int) =~= body);
        assert(seq_views(parts@)[n - 1] == parts@[n - 1]@);
    }
    let last = &parts[n - 1];
    if last.len() > 0 {
        let ghost old_res = seq_views(res@);
        let mut t: Vec<char> = Vec::new();
        let m = last.len();
        for j in 0..m
            invariant
                m == last@.len(),
                t@ == last@.take(j as int),
        {
            t.push(last[j]);
            proof {
                assert(last@.take(j + 1) == last@.take(j as int).push(last@[j as int]));
            }
        }
        proof {
            assert(last@.take(m as int) == last@);
        }
        res.push(t);
        proof {
            assert(seq_views(res@) =~= old_res.push(last@));
        }
    }
    res
}

/// `value.split_whitespace().next()?.parse::<u64>().ok()`: a kibibyte count
/// such as `"   123456 kB"`.
pub open spec fn kib_spec(value: Seq<char>) -> Option<nat> {
    let t = ws_tokens(value);
    if t.len() == 0 {
        None
    } else {
        parse_unsigned_spec(t[0], 10, u64::MAX as nat)
    }
}

/// Reads the leading number of a procfs size field.
pub fn parse_kib(value: &[char]) -> (r: Option<u64>)
    ensures
        opt_u64_view(r) == kib_spec(value@),
{
    let toks = ws_split(value);
    if toks.len() == 0 {
        return None;
    }
    proof {
        assert(seq_views(toks@)[0] == toks@[0]@);
    }
    let r = parse_u64(toks[0].as_slice());
    proof {
        if r.is_some() {
            assert(opt_u64_view(r) == Some(r.unwrap() as nat));
        }
    }
    r
}

pub open spec fn opt_u64_view(o: Option<u64>) -> Option<nat> {
    match o {
        Some(v) => Some(v as nat),
        None => None,
    }
}

/// `MemTotal:` and `MemAvailable:` from the lines of `/proc/meminfo`; a later
/// line overrides an earlier one.
pub open spec fn meminfo_fold(ls: Seq<Seq<char>>) -> (Option<nat>, Option<nat>)
    decreases ls.len(),
{
    if ls.len() == 0 {
        (None, None)
    } else {
        let (t, a) = meminfo_fold(ls.drop_last());
        let l = ls.last();
        match strip_prefix_spec(l, "MemTotal:"@) {
            Some(rest) => (kib_spec(rest), a),
            None => match strip_prefix_spec(l, "MemAvailable:"@) {
                Some(rest) => (t, kib_spec(rest)),
                None => (t, a),
            },
        }
    }
}

/// The `VmRSS:` size from the first such line of `/proc/self/status`.
pub open spec fn rss_spec(ls: Seq<Seq<char>>) -> Option<nat>
    decreases ls.len(),
{
    if ls.len() == 0 {
        None
    } else {
        match strip_prefix_spec(ls[0], "VmRSS:"@) {
            Some(rest) => kib_spec(rest),
            None => rss_spec(ls.drop_first()),
        }
    }
}

/// System memory and this process's resident set, in kibibytes.
#[derive(Debug, Clone, Copy, Default)]
pub struct MemInfo {
    pub total_kib: Option<u64>,
    pub available_kib: Option<u64>,
    pub process_rss_kib: Option<u64>,
}

/// `MemTotal:` and `MemAvailable:` of `/proc/meminfo` text.
pub fn meminfo_totals(content: &str) -> (r: (Option<u64>, Option<u64>))
    ensures
        (opt_u64_view(r.0), opt_u64_view(r.1)) == meminfo_fold(lines_spec(content@)),
{
    let total_prefix = chars_of("MemTotal:");
    let avail_prefix = chars_of("MemAvailable:");
    let mut total: Option<u64> = None;
    let mut avail: Option<u64> = None;
    let ls = lines(content);
    let n = ls.len();
    let ghost all = lines_spec(content@);
    proof {
        assert(all.take(0) =~= Seq::<Seq<char>>::empty());
    }
    for i in 0..n
        invariant
            n == ls@.len(),
            seq_views(ls@) == all,
            total_prefix@ == "MemTotal:"@,
            avail_prefix@ == "MemAvailable:"@,
            (opt_u64_view(total), opt_u64_view(avail)) == meminfo_fold(all.take(i as int)),
    {
        let line = ls[i].as_slice();
        proof {
            assert(all[i as int] == ls@[i as int]@);
            assert(all.take(i + 1).drop_last() =~= all.take(i as int));
            assert(all.take(i + 1).last() == all[i as int]);
        }
        match strip_prefix(line, total_prefix.as_slice()) {
            Some(rest) => {
                total = parse_kib(rest.as_slice());
            },
            None => match strip_prefix(line, avail_prefix.as_slice()) {
                Some(rest) => {
                    avail = parse_kib(rest.as_slice());
                },
                None => {},
            },
        }
    }
    proof {
        assert(all.take(n as int) =~= all);
    }
    (total, avail)
}

/// `VmRSS:` of `/proc/self/status` text: the first such line's size.
pub fn status_rss(content: &str) -> (r: Option<u64>)
    ensures
        opt_u64_view(r) == rss_spec(lines_spec(content@)),
{
    let rss_prefix = chars_of("VmRSS:");
    let ls = lines(content);
    let n = ls.len();
    let ghost all = lines_spec(content@);
    let mut i: usize = 0;
    proof {
        assert(all.skip(0) =~= all);
    }
    while i < n
        invariant
            i <= n,
            n == ls@.len(),
            seq_views(ls@) == all,
            rss_prefix@ == "VmRSS:"@,
            all == lines_spec(content@),
            rss_spec(all) == rss_spec(all.skip(i as int)),
        decreases n - i,
    {
        let line = ls[i].as_slice();
        proof {
            assert(all[i as int] == ls@[i as int]@);
            assert(all.skip(i as int)[0] == all[i as int]);
            assert(all.skip(i as int).drop_first() =~= all.skip(i + 1));
        }
        match strip_prefix(line, rss_prefix.as_slice()) {
            Some(rest) => {
                let r = parse_kib(rest.as_slice());
                proof {
                    assert(line@ == all.skip(i as int)[0]);
                    assert(strip_prefix_spec(line@, "VmRSS:"@) == Some(rest@));
                    assert(rss_spec(all.skip(i as int)) == kib_spec(rest@));
                }
                return r;
            },
            None => {},
        }
        i = i + 1;
    }
    proof {
        assert(all.skip(n as int) =~= Seq::<Seq<char>>::empty());
    }
    None
}

/// Reads `/proc/meminfo` and `/proc/self/status` contents (`None` for a file
/// that could not be read) into a `MemInfo`.
pub fn meminfo_from(meminfo: Option<&str>, status: Option<&str>) -> (r: MemInfo)
    ensures
        meminfo.is_none() ==> r.total_kib.is_none() && r.available_kib.is_none(),
        meminfo.is_some() ==> (opt_u64_view(r.total_kib), opt_u64_view(r.available_kib))
            == meminfo_fold(lines_spec(meminfo.unwrap()@)),
        status.is_none() ==> r.process_rss_kib.is_none(),
        status.is_some() ==> opt_u64_view(r.process_rss_kib) == rss_spec(
            lines_spec(status.unwrap()@),
        ),
{
    let (total_kib, available_kib) = match meminfo {
        Some(c) => meminfo_totals(c),
        None => (None, None),
    };
    let process_rss_kib = match status {
        Some(c) => status_rss(c),
        None => None,
    };
    MemInfo { total_kib, available_kib, process_rss_kib }
}

/// Aggregate jiffies from `/proc/stat` and this process's from `/proc/self/stat`.
#[derive(Debug, Clone, Copy, PartialEq, Eq, Structural)]
pub struct CpuStat {
    pub total: u64,
    pub busy: u64,
    pub process: u64,
}

/// A `/proc/stat` counter: the token read as a number, or zero when it is not one.
pub open spec fn field_value(t: Seq<char>) -> nat {
    match parse_unsigned_spec(t, 10, u64::MAX as nat) {
        Some(v) => v,
        None => 0,
    }
}

/// The (at most eight) counters after `cpu` on the first line of `/proc/stat`:
/// user, nice, system, idle, iowait, irq, softirq, steal.
pub open spec fn cpu_fields(stat: Seq<char>) -> Option<Seq<nat>> {
    let ls = lines_spec(stat);
    if ls.len() == 0 {
        None
    } else {
        match strip_prefix_spec(ls[0], "cpu"@) {
            None => None,
            Some(rest) => {
                let toks = ws_tokens(trim_start_spec(rest));
                let k = if toks.len() < 8 {
                    toks.len() as int
                } else {
                    8
                };
                Some(toks.take(k).map_values(|t: Seq<char>| field_value(t)))
            },
        }
    }
}

pub open spec fn sum_nat(s: Seq<nat>) -> nat
    decreases s.len(),
{
    if s.len() == 0 {
        0
    } else {
        sum_nat(s.drop_last()) + s.last()
    }
}

/// Position of the last `c` in `s`, or -1.
pub open spec fn last_index_of(s: Seq<char>, c: char) -> int
    decreases s.len(),
{
    if s.len() == 0 {
        -1
    } else if s.last() == c {
        s.len() - 1
    } else {
        last_index_of(s.drop_last(), c)
    }
}

/// User and system ticks of this process from `/proc/self/stat`: fields 14 and
/// 15, counted after the last `)` so that a command name with spaces is skipped.
pub open spec fn process_ticks(self_stat: Seq<char>) -> Option<(nat, nat)> {
    let p = last_index_of(self_stat, ')');
    if p < 0 {
        None
    } else {
        let toks = ws_tokens(self_stat.skip(p + 1));
        if toks.len() <= 12 {
            None
        } else {
            match (
                parse_unsigned_spec(toks[11], 10, u64::MAX as nat),
                parse_unsigned_spec(toks[12], 10, u64::MAX as nat),
            ) {
                (Some(u), Some(st)) => Some((u, st)),
                _ => None,
            }
        }
    }
}

/// What reading the CPU counters gives.
#[derive(Debug, Clone, Copy, PartialEq, Eq, Structural)]
pub enum CpuStatReading {
    /// A file could not be read or is not in the expected shape.
    Unavailable,
    /// A counter sum does not fit in 64 bits.
    Overflow,
    Stat(CpuStat),
}

/// The counters of `/proc/stat` and `/proc/self/stat` text (`None` for a file
/// that could not be read). Busy time is the total less idle and iowait.
pub open spec fn cpu_stat_spec(stat: Option<Seq<char>>, self_stat: Option<Seq<char>>) -> CpuStatReading {
    match stat {
        None => CpuStatReading::Unavailable,
        Some(st) => match cpu_fields(st) {
            None => CpuStatReading::Unavailable,
            Some(vals) => {
                if vals.len() < 4 {
                    CpuStatReading::Unavailable
                } else {
                    let idle = vals[3] + if vals.len() > 4 {
                        vals[4]
                    } else {
                        0
                    };
                    let total = sum_nat(vals);
                    if idle > u64::MAX || total > u64::MAX {
                        CpuStatReading::Overflow
                    } else {
                        let busy = if total >= idle {
                            total - idle
                        } else {
                            0
                        };
                        match self_stat {
                            None => CpuStatReading::Unavailable,
                            Some(ps) => match process_ticks(ps) {
                                None => CpuStatReading::Unavailable,
                                Some((u, stime)) => {
                                    if u + stime > u64::MAX {
                                        CpuStatReading::Overflow
                                    } else {
                                        CpuStatReading::Stat(
                                            CpuStat {
                                                total: total as u64,
                                                busy: busy as u64,
                                                process: (u + stime) as u64,
                                            },
                                        )
                                    }
                                },
                            },
                        }
                    }
                }
            },
        },
    }
}

fn field_value_of(t: &[char]) -> (r: u64)
    ensures
        r == field_value(t@),
{
    match parse_u64(t) {
        Some(v) => v,
        None => 0,
    }
}

fn cpu_fields_of(stat: &str) -> (r: Option<Vec<u64>>)
    ensures
        match r {
            Some(v) => cpu_fields(stat@) == Some(v@.map_values(|x: u64| x as nat)),
            None => cpu_fields(stat@).is_none(),
        },
{
    let ls = lines(stat);
    if ls.len() == 0 {
        return None;
    }
    proof {
        assert(seq_views(ls@)[0] == ls@[0]@);
    }
    let cpu = chars_of("cpu");
    let rest = match strip_prefix(ls[0].as_slice(), cpu.as_slice()) {
        None => return None,
        Some(r) => r,
    };
    let rest = trim_start(rest.as_slice());
    let toks = ws_split(rest.as_slice());
    let k: usize = if toks.len() < 8 {
        toks.len()
    } else {
        8
    };
    let ghost want = seq_views(toks@).take(k as int).map_values(|t: Seq<char>| field_value(t));
    let mut vals: Vec<u64> = Vec::new();
    for i in 0..k
        invariant
            k <= toks@.len(),
            want == seq_views(toks@).take(k as int).map_values(|t: Seq<char>| field_value(t)),
            vals@.map_values(|x: u64| x as nat) == want.take(i as int),
    {
        let v = field_value_of(toks[i].as_slice());
        proof {
            assert(seq_views(toks@)[i as int] == toks@[i as int]@);
        }
        let ghost before = vals@;
        vals.push(v);
        proof {
            assert(vals@.map_values(|x: u64| x as nat) =~= before.map_values(|x: u64| x as nat).push(
                v as nat,
            ));
            assert(want.take(i + 1) =~= want.take(i as int).push(want[i as int]));
        }
    }
    proof {
        assert(want.take(k as int) =~= want);
    }
    Some(vals)
}

fn process_ticks_of(self_stat: &str) -> (r: Option<(u64, u64)>)
    ensures
        match r {
            Some((u, st)) => process_ticks(self_stat@) == Some((u as nat, st as nat)),
            None => process_ticks(self_stat@).is_none(),
        },
{
    let chars = chars_of(self_stat);
    let n = chars.len();
    let mut j: usize = n;
    proof {
        assert(chars@.take(n as int) == chars@);
    }
    while j > 0 && chars[j - 1] != ')'
        invariant
            j <= n,
            n == chars@.len(),
            last_index_of(chars@, ')') == last_index_of(chars@.take(j as int), ')'),
        decreases j,
    {
        proof {
            assert(chars@.take(j as int).drop_last() == chars@.take(j - 1));
        }
        j = j - 1;
    }
    if j == 0 {
        return None;
    }
    proof {
        assert(chars@.take(j as int).last() == ')');
        assert(last_index_of(chars@, ')') == j - 1);
    }
    let after = crate::text::suffix_from(chars.as_slice(), j);
    let toks = ws_split(after.as_slice());
    if toks.len() <= 12 {
        return None;
    }
    proof {
        assert(seq_views(toks@)[11] == toks@[11]@);
        assert(seq_views(toks@)[12] == toks@[12]@);
    }
    let u = match parse_u64(toks[11].as_slice()) {
        None => return None,
        Some(v) => v,
    };
    let st = match parse_u64(toks[12].as_slice()) {
        None => return None,
        Some(v) => v,
    };
    Some((u, st))
}

/// Reads the CPU counters from `/proc/stat` and `/proc/self/stat` contents.
pub fn cpu_stat_from(stat: Option<&str>, self_stat: Option<&str>) -> (r: CpuStatReading)
    ensures
        r == cpu_stat_spec(
            match stat {
                Some(s) => Some(s@),
                None => None,
            },
            match self_stat {
                Some(s) => Some(s@),
                None => None,
            },
        ),
{
    let st = match stat {
        None => return CpuStatReading::Unavailable,
        Some(s) => s,
    };
    let vals = match cpu_fields_of(st) {
        None => return CpuStatReading::Unavailable,
        Some(v) => v,
    };
    let ghost nv = vals@.map_values(|x: u64| x as nat);
    if vals.len() < 4 {
        return CpuStatReading::Unavailable;
    }
    let extra: u64 = if vals.len() > 4 {
        vals[4]
    } else {
        0
    };
    let idle = match vals[3].checked_add(extra) {
        None => return CpuStatReading::Overflow,
        Some(v) => v,
    };
    let n = vals.len();
    let mut total: u64 = 0;
    let mut overflow = false;
    proof {
        assert(nv.take(0) =~= Seq::<nat>::empty());
    }
    for i in 0..n
        invariant
            n == vals@.len(),
            nv == vals@.map_values(|x: u64| x as nat),
            !overflow ==> total == sum_nat(nv.take(i as int)),
            overflow ==> sum_nat(nv.take(i as int)) > u64::MAX,
    {
        proof {
            assert(nv.take(i + 1).drop_last() =~= nv.take(i as int));
            assert(nv.take(i + 1).last() == vals@[i as int] as nat);
        }
        if !overflow {
            match total.checked_add(vals[i]) {
                None => {
                    overflow = true;
                },
                Some(t) => {
                    total = t;
                },
            }
        }
    }
    proof {
        assert(nv.take(n as int) =~= nv);
    }
    if overflow {
        return CpuStatReading::Overflow;
    }
    let busy = total.saturating_sub(idle);
    let ps = match self_stat {
        None => return CpuStatReading::Unavailable,
        Some(p) => p,
    };
    let (u, stime) = match process_ticks_of(ps) {
        None => return CpuStatReading::Unavailable,
        Some(t) => t,
    };
    match u.checked_add(stime) {
        None => CpuStatReading::Overflow,
        Some(process) => CpuStatReading::Stat(CpuStat { total, busy, process }),
    }
}

/// Changes between two CPU counter readings.
#[derive(Debug, Clone, Copy, PartialEq, Eq, Structural)]
pub struct CpuDeltas {
    pub busy: u64,
    pub process: u64,
    pub total: u64,
}

pub open spec fn sat_sub(a: u64, b: u64) -> u64 {
    if a >= b {
        (a - b) as u64
    } else {
        0
    }
}

/// One step of the CPU sampler: the new remembered reading and the result.
/// A missing reading changes nothing; the first reading only primes the
/// sampler; a window without elapsed total time gives no result.
pub open spec fn cpu_advance(prev: Option<CpuStat>, now: Option<CpuStat>) -> (
    Option<CpuStat>,
    Option<CpuDeltas>,
) {
    match now {
        None => (prev, None),
        Some(n) => match prev {
            None => (Some(n), None),
            Some(p) => {
                let td = sat_sub(n.total, p.total);
                if td == 0 {
                    (Some(n), None)
                } else {
                    (
                        Some(n),
                        Some(
                            CpuDeltas {
                                busy: sat_sub(n.busy, p.busy),
                                process: sat_sub(n.process, p.process),
                                total: td,
                            },
                        ),
                    )
                }
            },
        },
    }
}

/// Two-sample CPU utilization estimator: remembers the previous counters.
pub struct CpuSampler {
    prev: Option<CpuStat>,
}

impl CpuSampler {
    /// The remembered counters.
    pub closed spec fn previous(&self) -> Option<CpuStat> {
        self.prev
    }

    pub fn new() -> (r: Self)
        ensures
            r.previous().is_none(),
    {
        CpuSampler { prev: None }
    }

    /// Takes a new reading; returns the busy, process and total time elapsed
    /// since the previous one.
    pub fn advance(&mut self, now: Option<CpuStat>) -> (r: Option<CpuDeltas>)
        ensures
            (final(self).previous(), r) == cpu_advance(old(self).previous(), now),
    {
        let n = match now {
            None => return None,
            Some(n) => n,
        };
        let prev = self.prev;
        self.prev = Some(n);
        match prev {
            None => None,
            Some(p) => {
                let total = n.total.saturating_sub(p.total);
                if total == 0 {
                    None
                } else {
                    Some(
                        CpuDeltas {
                            busy: n.busy.saturating_sub(p.busy),
                            process: n.process.saturating_sub(p.process),
                            total,
                        },
                    )
                }
            },
        }
    }
}

/// One step of the GPU sampler over `(busy, total)` tick counters.
pub open spec fn gpu_advance(prev_busy: Option<u64>, prev_total: Option<u64>, now: Option<(u64, u64)>) -> (
    Option<u64>,
    Option<u64>,
    Option<(u64, u64)>,
) {
    match now {
        None => (prev_busy, prev_total, None),
        Some((busy, total)) => match (prev_busy, prev_total) {
            (Some(pb), Some(pt)) => {
                let td = sat_sub(total, pt);
                (Some(busy), Some(total), if td > 0 {
                    Some((sat_sub(busy, pb), td))
                } else {
                    None
                })
            },
            _ => (Some(busy), Some(total), None),
        },
    }
}

/// Two-sample GPU busy estimator over KGSL `gpubusy` counters.
pub struct GpuSampler {
    prev_busy: Option<u64>,
    prev_total: Option<u64>,
}

impl GpuSampler {
    pub closed spec fn previous_busy(&self) -> Option<u64> {
        self.prev_busy
    }

    pub closed spec fn previous_total(&self) -> Option<u64> {
        self.prev_total
    }

    pub fn new() -> (r: Self)
        ensures
            r.previous_busy().is_none(),
            r.previous_total().is_none(),
    {
        GpuSampler { prev_busy: None, prev_total: None }
    }

    /// Takes a new `(busy, total)` reading; returns the busy and total ticks
    /// elapsed since the previous one when some total time elapsed.
    pub fn advance(&mut self, now: Option<(u64, u64)>) -> (r: Option<(u64, u64)>)
        ensures
            (final(self).previous_busy(), final(self).previous_total(), r) == gpu_advance(
                old(self).previous_busy(),
                old(self).previous_total(),
                now,
            ),
    {
        let (busy, total) = match now {
            None => return None,
            Some(t) => t,
        };
        let pb = self.prev_busy;
        let pt = self.prev_total;
        self.prev_busy = Some(busy);
        self.prev_total = Some(total);
        match (pb, pt) {
            (Some(pb), Some(pt)) => {
                let td = total.saturating_sub(pt);
                if td > 0 {
                    Some((busy.saturating_sub(pb), td))
                } else {
                    None
                }
            },
            _ => None,
        }
    }
}

/// `gpubusy` text: two whitespace-separated tick counts, busy then total.
pub open spec fn gpubusy_spec(raw: Seq<char>) -> Option<(nat, nat)> {
    let t = ws_tokens(raw);
    if t.len() < 2 {
        None
    } else {
        match (
            parse_unsigned_spec(t[0], 10, u64::MAX as nat),
            parse_unsigned_spec(t[1], 10, u64::MAX as nat),
        ) {
            (Some(b), Some(tot)) => Some((b, tot)),
            _ => None,
        }
    }
}

/// Reads the busy and total ticks of KGSL `gpubusy` text.
pub fn parse_gpubusy(raw: &str) -> (r: Option<(u64, u64)>)
    ensures
        match r {
            Some((b, t)) => gpubusy_spec(raw@) == Some((b as nat, t as nat)),
            None => gpubusy_spec(raw@).is_none(),
        },
{
    let chars = chars_of(raw);
    let toks = ws_split(chars.as_slice());
    if toks.len() < 2 {
        return None;
    }
    proof {
        assert(seq_views(toks@)[0] == toks@[0]@);
        assert(seq_views(toks@)[1] == toks@[1]@);
    }
    let b = match parse_u64(toks[0].as_slice()) {
        None => return None,
        Some(v) => v,
    };
    let t = match parse_u64(toks[1].as_slice()) {
        None => return None,
        Some(v) => v,
    };
    Some((b, t))
}

/// Reads a frequency file: its trimmed text as a number of hertz.
pub fn parse_freq_hz(raw: &str) -> (r: Option<u64>)
    ensures
        opt_u64_view(r) == parse_unsigned_spec(trim_spec(raw@), 10, u64::MAX as nat),
{
    let chars = chars_of(raw);
    let t = trim(chars.as_slice());
    let r = parse_u64(t.as_slice());
    proof {
        if r.is_some() {
            assert(opt_u64_view(r) == Some(r.unwrap() as nat));
        }
    }
    r
}

/// The first reading a fresh CPU sampler takes only primes it: no result,
/// and the reading is remembered.
pub proof fn law_cpu_sampler_primes(now: CpuStat)
    ensures
        cpu_advance(None, Some(now)) == (Some(now), None::<CpuDeltas>),
{
}

/// Two consecutive readings `a` then `b` give the elapsed busy, process and
/// total ticks (counters that went backwards count as zero), whenever some
/// total time elapsed; a failed read in between leaves the window open.
pub proof fn law_cpu_sampler_window(a: CpuStat, b: CpuStat)
    ensures
        cpu_advance(cpu_advance(Some(a), None).0, Some(b)).1 == (if b.total > a.total {
            Some(
                CpuDeltas {
                    busy: sat_sub(b.busy, a.busy),
                    process: sat_sub(b.process, a.process),
                    total: (b.total - a.total) as u64,
                },
            )
        } else {
            None
        }),
{
}

/// The system busy share stays within one: a reading's busy time never
/// exceeds its total, and between two such readings whose idle time did not
/// go backwards the busy ticks elapsed never exceed the total ticks elapsed.
pub proof fn law_cpu_busy_share_at_most_one(
    stat: Option<Seq<char>>,
    self_stat: Option<Seq<char>>,
    prev: CpuStat,
    now: CpuStat,
)
    requires
        prev.busy <= prev.total,
        now.busy <= now.total,
        now.total - now.busy >= prev.total - prev.busy,
    ensures
        cpu_stat_spec(stat, self_stat) matches CpuStatReading::Stat(s) ==> s.busy <= s.total,
        cpu_advance(Some(prev), Some(now)).1 matches Some(d) ==> d.busy <= d.total,
{
}

/// The first `gpubusy` reading of a fresh GPU sampler only primes it.
pub proof fn law_gpu_sampler_primes(busy: u64, total: u64)
    ensures
        gpu_advance(None, None, Some((busy, total))) == (Some(busy), Some(total), None::<(u64, u64)>),
{
}

} // verus!
