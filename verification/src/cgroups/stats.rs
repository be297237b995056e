//! Statistics of a cgroup.
use vstd::prelude::*;

use crate::strmap::StrMap;
use crate::text::{
    chars_of, fields, lines, lines_of, parse_u64, str_eq, string_of, uint_of, words, words_on, Sep,
};

verus! {

/// The entry that a line of a flat keyed file makes: two words, the second a number.
pub open spec fn line_entry(line: Seq<char>) -> Option<(Seq<char>, u64)> {
    let w = words_on(line, Sep::White);
    if w.len() == 2 {
        match uint_of(w[1], 10, u64::MAX as nat) {
            Some(n) => Some((w[0], n as u64)),
            None => None,
        }
    } else {
        None
    }
}

/// The entries of the lines of a file, later ones over earlier ones.
pub open spec fn entries_of(lines: Seq<Seq<char>>) -> Map<Seq<char>, u64>
    decreases lines.len(),
{
    if lines.len() == 0 {
        Map::empty()
    } else {
        match line_entry(lines.last()) {
            Some(kv) => entries_of(lines.drop_last()).insert(kv.0, kv.1),
            None => entries_of(lines.drop_last()),
        }
    }
}

/// What a flat keyed file says.
pub open spec fn flat_map(content: Seq<char>) -> Map<Seq<char>, u64> {
    entries_of(lines_of(content))
}

/// Reads a flat keyed file; lines of another form are passed over.
pub fn lines_to_map(content: &str) -> (r: StrMap<u64>)
    ensures
        r@ == flat_map(content@),
{
    let text = chars_of(content);
    let all = lines(text.as_slice());
    let ghost ls = fields(all@);
    let mut map: StrMap<u64> = StrMap::new();
    let mut i: usize = 0;
    proof {
        assert(ls.take(0) =~= Seq::<Seq<char>>::empty());
    }
    while i < all.len()
        invariant
            i <= all.len(),
            ls == fields(all@),
            map@ == entries_of(ls.take(i as int)),
        decreases all.len() - i,
    {
        proof {
            assert(ls.take(i + 1).drop_last() =~= ls.take(i as int));
            assert(ls.take(i + 1).last() == all@[i as int]@);
        }
        let w = words(all[i].as_slice(), Sep::White);
        let ghost ws = words_on(all@[i as int]@, Sep::White);
        if w.len() == 2 {
            proof {
                assert(ws[0] == w@[0]@);
                assert(ws[1] == w@[1]@);
            }
            if let Some(n) = parse_u64(w[1].as_slice(), 10) {
                map.insert(string_of(w[0].as_slice()), n);
            }
        }
        i += 1;
    }
    proof {
        assert(ls.take(ls.len() as int) =~= ls);
    }
    map
}

/// The value of a key, or 0.
pub open spec fn stat_of(content: Seq<char>, key: Seq<char>) -> u64 {
    if flat_map(content).contains_key(key) {
        flat_map(content)[key]
    } else {
        0
    }
}

fn value_of(map: &StrMap<u64>, key: &str) -> (r: u64)
    ensures
        r == if map@.contains_key(key@) {
            map@[key@]
        } else {
            0u64
        },
{
    match map.get(key) {
        Some(n) => *n,
        None => 0,
    }
}

/// How often a container was throttled.
#[derive(Clone, Copy, Debug, PartialEq, Eq, Structural)]
pub struct ThrottlingData {
    pub periods: u64,
    pub throttled_periods: u64,
    pub throttled_time: u64,
}

/// Reads the throttling from `cpu.stat`.
pub fn get_cpu_stats(stat: &str) -> (r: ThrottlingData)
    ensures
        r.periods == stat_of(stat@, "nr_periods"@),
        r.throttled_periods == stat_of(stat@, "nr_throttled"@),
        r.throttled_time == stat_of(stat@, "throttled_time"@),
{
    let h = lines_to_map(stat);
    ThrottlingData {
        periods: value_of(&h, "nr_periods"),
        throttled_periods: value_of(&h, "nr_throttled"),
        throttled_time: value_of(&h, "throttled_time"),
    }
}

/// The processor time of a container, in nanoseconds.
#[derive(Clone, Copy, Debug, PartialEq, Eq, Structural)]
pub struct CpuUsage {
    pub total_usage: u64,
    pub usage_in_kernelmode: u64,
    pub usage_in_usermode: u64,
}

/// Whether the times of `cpu.stat` can be told in nanoseconds.
pub open spec fn times_fit(stat: Seq<char>) -> bool {
    &&& stat_of(stat, "user_usec"@) * 1000 <= u64::MAX
    &&& stat_of(stat, "system_usec"@) * 1000 <= u64::MAX
    &&& stat_of(stat, "usage_usec"@) * 1000 <= u64::MAX
}

/// Reads the processor time from `cpu.stat`, which tells it in microseconds.
pub fn get_cpu_usage_stats(stat: &str) -> (r: CpuUsage)
    requires
        times_fit(stat@),
    ensures
        r.usage_in_usermode == stat_of(stat@, "user_usec"@) * 1000,
        r.usage_in_kernelmode == stat_of(stat@, "system_usec"@) * 1000,
        r.total_usage == stat_of(stat@, "usage_usec"@) * 1000,
{
    let h = lines_to_map(stat);
    CpuUsage {
        total_usage: value_of(&h, "usage_usec") * 1000,
        usage_in_kernelmode: value_of(&h, "system_usec") * 1000,
        usage_in_usermode: value_of(&h, "user_usec") * 1000,
    }
}

/// Tells whether the times of `cpu.stat` can be told in nanoseconds.
pub fn cpu_times_fit(stat: &str) -> (r: bool)
    ensures
        r == times_fit(stat@),
{
    let h = lines_to_map(stat);
    value_of(&h, "user_usec") <= u64::MAX / 1000 && value_of(&h, "system_usec") <= u64::MAX / 1000
        && value_of(&h, "usage_usec") <= u64::MAX / 1000
}

/// Whether the host reads a memory statistic.
pub open spec fn host_reads(key: Seq<char>) -> bool {
    key == "inactive_file"@ || key == "inactive_anon"@ || key == "active_file"@ || key
        == "unevictable"@
}

/// Tells whether the host reads a memory statistic.
pub fn host_uses_memory_stat(key: &str) -> (r: bool)
    ensures
        r == host_reads(key@),
{
    str_eq(key, "inactive_file") || str_eq(key, "inactive_anon") || str_eq(key, "active_file")
        || str_eq(key, "unevictable")
}

/// Keys and values of a list.
pub open spec fn stat_views(v: Seq<(String, u64)>) -> Seq<(Seq<char>, u64)> {
    v.map_values(|e: (String, u64)| (e.0@, e.1))
}

/// Keeps the memory statistics that the host reads.
pub fn memory_stats_for_host(raw: &Vec<(String, u64)>) -> (r: Vec<(String, u64)>)
    ensures
        stat_views(r@) == stat_views(raw@).filter(|e: (Seq<char>, u64)| host_reads(e.0)),
{
    let ghost all = stat_views(raw@);
    let ghost keep = |e: (Seq<char>, u64)| host_reads(e.0);
    let mut out: Vec<(String, u64)> = Vec::new();
    let mut i: usize = 0;
    reveal(Seq::filter);
    proof {
        assert(stat_views(out@) =~= all.take(0).filter(keep));
    }
    while i < raw.len()
        invariant
            i <= raw.len(),
            all == stat_views(raw@),
            keep == (|e: (Seq<char>, u64)| host_reads(e.0)),
            stat_views(out@) == all.take(i as int).filter(keep),
        decreases raw.len() - i,
    {
        reveal(Seq::filter);
        proof {
            assert(all.take(i + 1).drop_last() =~= all.take(i as int));
            assert(all.take(i + 1).last() == (raw@[i as int].0@, raw@[i as int].1));
        }
        if host_uses_memory_stat(raw[i].0.as_str()) {
            let ghost was = stat_views(out@);
            let e = (raw[i].0.clone(), raw[i].1);
            out.push(e);
            proof {
                assert(stat_views(out@) =~= was.push((e.0@, e.1)));
            }
        }
        i += 1;
    }
    proof {
        assert(all.take(all.len() as int) =~= all);
    }
    out
}

/// The use of a kind of memory.
#[derive(Clone, Copy, Debug, PartialEq, Eq, Structural)]
pub struct MemoryData {
    pub usage: u64,
    pub max_usage: u64,
    pub failcnt: u64,
    pub limit: u64,
}

/// The use of a kind of memory as the kernel tells it; the limit is signed.
#[derive(Clone, Copy, Debug, PartialEq, Eq, Structural)]
pub struct MemoryReading {
    pub usage: u64,
    pub max_usage: u64,
    pub failcnt: u64,
    pub limit: i64,
}

/// What the host is told of a reading: the bits of the limit are kept.
pub open spec fn memory_data(m: MemoryReading) -> MemoryData {
    MemoryData {
        usage: m.usage,
        max_usage: m.max_usage,
        failcnt: m.failcnt,
        limit: super::resources::as_bits(m.limit as int) as u64,
    }
}

fn data_of(m: MemoryReading) -> (r: MemoryData)
    ensures
        r == memory_data(m),
{
    MemoryData {
        usage: m.usage,
        max_usage: m.max_usage,
        failcnt: m.failcnt,
        limit: bits_of(m.limit),
    }
}

/// The use of memory.
#[derive(Debug)]
pub struct MemoryStats {
    pub cache: u64,
    pub usage: MemoryData,
    pub swap_usage: MemoryData,
    pub stats: Vec<(String, u64)>,
}

/// The memory statistics. Of the numbers by name only those that the host reads are
/// kept.
pub fn get_memory_stats(
    cache: u64,
    memory: MemoryReading,
    swap: MemoryReading,
    raw: &Vec<(String, u64)>,
) -> (r: MemoryStats)
    ensures
        r.cache == cache,
        r.usage.usage == memory.usage,
        r.usage.max_usage == memory.max_usage,
        r.usage.failcnt == memory.failcnt,
        (r.usage.limit - memory.limit) % 0x1_0000_0000_0000_0000 == 0,
        r.swap_usage.usage == swap.usage,
        r.swap_usage.max_usage == swap.max_usage,
        r.swap_usage.failcnt == swap.failcnt,
        (r.swap_usage.limit - swap.limit) % 0x1_0000_0000_0000_0000 == 0,
        r.usage == memory_data(memory),
        r.swap_usage == memory_data(swap),
        stat_views(r.stats@) == stat_views(raw@).filter(|e: (Seq<char>, u64)| host_reads(e.0)),
{
    MemoryStats {
        cache,
        usage: data_of(memory),
        swap_usage: data_of(swap),
        stats: memory_stats_for_host(raw),
    }
}

/// The use of huge pages of a size.
#[derive(Clone, Copy, Debug, PartialEq, Eq, Structural)]
pub struct HugetlbStats {
    pub usage: u64,
    pub max_usage: u64,
    pub failcnt: u64,
}

/// The use of huge pages of a size as it was read; what cannot be read is missing.
#[derive(Debug)]
pub struct HugetlbReading {
    pub size: String,
    pub usage: Option<u64>,
    pub max_usage: Option<u64>,
    pub failcnt: Option<u64>,
}

/// A number, and 0 where it is missing.
pub open spec fn or_zero(n: Option<u64>) -> u64 {
    match n {
        Some(v) => v,
        None => 0,
    }
}

/// The use of huge pages by size, later readings over earlier ones.
pub open spec fn hugetlb_map(readings: Seq<HugetlbReading>) -> Map<Seq<char>, HugetlbStats>
    decreases readings.len(),
{
    if readings.len() == 0 {
        Map::empty()
    } else {
        let l = readings.last();
        hugetlb_map(readings.drop_last()).insert(
            l.size@,
            HugetlbStats {
                usage: or_zero(l.usage),
                max_usage: or_zero(l.max_usage),
                failcnt: or_zero(l.failcnt),
            },
        )
    }
}

fn number_or_zero(n: Option<u64>) -> (r: u64)
    ensures
        r == or_zero(n),
{
    match n {
        Some(v) => v,
        None => 0,
    }
}

/// The statistics of huge pages: what cannot be read counts as 0.
pub fn get_hugetlb_stats(readings: &Vec<HugetlbReading>) -> (r: StrMap<HugetlbStats>)
    ensures
        r@ == hugetlb_map(readings@),
{
    let mut map: StrMap<HugetlbStats> = StrMap::new();
    let mut i: usize = 0;
    proof {
        assert(readings@.take(0) =~= Seq::<HugetlbReading>::empty());
    }
    while i < readings.len()
        invariant
            i <= readings.len(),
            map@ == hugetlb_map(readings@.take(i as int)),
        decreases readings.len() - i,
    {
        proof {
            assert(readings@.take(i + 1).drop_last() =~= readings@.take(i as int));
            assert(readings@.take(i + 1).last() == readings@[i as int]);
        }
        let stats = HugetlbStats {
            usage: number_or_zero(readings[i].usage),
            max_usage: number_or_zero(readings[i].max_usage),
            failcnt: number_or_zero(readings[i].failcnt),
        };
        map.insert(readings[i].size.clone(), stats);
        i += 1;
    }
    proof {
        assert(readings@.take(readings@.len() as int) =~= readings@);
    }
    map
}

/// The limit on the number of processes, as the kernel tells it.
#[derive(Clone, Copy, Debug, PartialEq, Eq, Structural)]
pub enum MaxValue {
    Max,
    Value(i64),
}

/// The number of processes of a container.
#[derive(Clone, Copy, Debug, PartialEq, Eq, Structural)]
pub struct PidsStats {
    pub current: u64,
    pub limit: u64,
}

/// A signed number of 64 bits as an unsigned one of the same bits.
fn bits_of(n: i64) -> (r: u64)
    ensures
        r == super::resources::as_bits(n as int),
{
    if n >= 0 {
        n as u64
    } else {
        (n as i128 + 0x1_0000_0000_0000_0000) as u64
    }
}

/// The process statistics: what cannot be read, and no limit, count as 0.
pub fn get_pids_stats(current: Option<u64>, max: Option<MaxValue>) -> (r: PidsStats)
    ensures
        r.current == match current {
            Some(n) => n,
            None => 0u64,
        },
        r.limit == match max {
            Some(MaxValue::Value(v)) => super::resources::as_bits(v as int),
            _ => 0,
        },
{
    PidsStats {
        current: match current {
            Some(n) => n,
            None => 0,
        },
        limit: match max {
            Some(MaxValue::Value(v)) => bits_of(v),
            _ => 0,
        },
    }
}

/// One number of a block device.
#[derive(Debug)]
pub struct BlkioStatsEntry {
    pub major: u64,
    pub minor: u64,
    pub op: String,
    pub value: u64,
}

/// An entry over sequences.
pub open spec fn entry_view(e: BlkioStatsEntry) -> (int, int, Seq<char>, int) {
    (e.major as int, e.minor as int, e.op@, e.value as int)
}

/// Makes an entry.
pub fn build_blkio_stats_entry(major: i16, minor: i16, op: &str, value: u64) -> (r: BlkioStatsEntry)
    ensures
        entry_view(r) == (
            super::resources::as_bits(major as int),
            super::resources::as_bits(minor as int),
            op@,
            value as int,
        ),
{
    BlkioStatsEntry {
        major: bits_of(major as i64),
        minor: bits_of(minor as i64),
        op: op.to_owned(),
        value,
    }
}

/// What the kernel tells of a block device.
#[derive(Clone, Copy, Debug, PartialEq, Eq, Structural)]
pub struct IoStat {
    pub major: i16,
    pub minor: i16,
    pub rbytes: u64,
    pub wbytes: u64,
    pub rios: u64,
    pub wios: u64,
    pub dbytes: u64,
    pub dios: u64,
}

/// The entries of one device: bytes and operations read, written and discarded.
pub open spec fn device_entries(s: IoStat) -> Seq<(int, int, Seq<char>, int)> {
    let a = super::resources::as_bits(s.major as int);
    let b = super::resources::as_bits(s.minor as int);
    seq![
        (a, b, "read"@, s.rbytes as int),
        (a, b, "write"@, s.wbytes as int),
        (a, b, "rios"@, s.rios as int),
        (a, b, "wios"@, s.wios as int),
        (a, b, "dbytes"@, s.dbytes as int),
        (a, b, "dios"@, s.dios as int),
    ]
}

/// The entries of all devices, in order.
pub open spec fn io_entries(stat: Seq<IoStat>) -> Seq<(int, int, Seq<char>, int)>
    decreases stat.len(),
{
    if stat.len() == 0 {
        Seq::empty()
    } else {
        io_entries(stat.drop_last()) + device_entries(stat.last())
    }
}

/// Makes the entries of all devices.
pub fn get_blkio_stats(stat: &Vec<IoStat>) -> (r: Vec<BlkioStatsEntry>)
    ensures
        r@.map_values(|e: BlkioStatsEntry| entry_view(e)) == io_entries(stat@),
{
    let mut out: Vec<BlkioStatsEntry> = Vec::new();
    let ghost view = |e: BlkioStatsEntry| entry_view(e);
    let mut i: usize = 0;
    proof {
        assert(stat@.take(0) =~= Seq::<IoStat>::empty());
        assert(out@.map_values(view) =~= io_entries(stat@.take(0)));
    }
    while i < stat.len()
        invariant
            i <= stat.len(),
            view == (|e: BlkioStatsEntry| entry_view(e)),
            out@.map_values(view) == io_entries(stat@.take(i as int)),
        decreases stat.len() - i,
    {
        let s = stat[i];
        let ghost was = out@.map_values(view);
        out.push(build_blkio_stats_entry(s.major, s.minor, "read", s.rbytes));
        out.push(build_blkio_stats_entry(s.major, s.minor, "write", s.wbytes));
        out.push(build_blkio_stats_entry(s.major, s.minor, "rios", s.rios));
        out.push(build_blkio_stats_entry(s.major, s.minor, "wios", s.wios));
        out.push(build_blkio_stats_entry(s.major, s.minor, "dbytes", s.dbytes));
        out.push(build_blkio_stats_entry(s.major, s.minor, "dios", s.dios));
        proof {
            assert(stat@.take(i + 1).drop_last() =~= stat@.take(i as int));
            assert(stat@.take(i + 1).last() == s);
            assert(out@.map_values(view) =~= was + device_entries(s));
        }
        i += 1;
    }
    proof {
        assert(stat@.take(stat@.len() as int) =~= stat@);
    }
    out
}

} // verus!
