//! What the host is told of a cgroup, for every reading.
use vstd::prelude::*;

use super::copying::same_wide_bits;
use crate::cgroups::stats::{
    device_entries, entries_of, flat_map, host_reads, hugetlb_map, io_entries, line_entry,
    memory_data, stat_of, HugetlbReading, IoStat, MemoryReading,
};
use crate::text::{lines_of, uint_of, words_on, Sep};

verus! {

/// The host is told each number of a reading under its own name.
pub proof fn law_memory_is_told_as_it_was_read(m: MemoryReading)
    ensures
        memory_data(m).usage == m.usage,
        memory_data(m).max_usage == m.max_usage,
        memory_data(m).failcnt == m.failcnt,
        same_wide_bits(memory_data(m).limit, m.limit),
{
}

/// Of the memory statistics the host reads four.
pub proof fn law_the_host_reads_four_statistics(key: Seq<char>)
    ensures
        host_reads(key) <==> seq![
            "inactive_file"@,
            "inactive_anon"@,
            "active_file"@,
            "unevictable"@,
        ].contains(key),
{
    let all = seq!["inactive_file"@, "inactive_anon"@, "active_file"@, "unevictable"@];
    assert(all[0] == "inactive_file"@);
    assert(all[1] == "inactive_anon"@);
    assert(all[2] == "active_file"@);
    assert(all[3] == "unevictable"@);
}

/// What a reading says, 0 where it could not be had.
pub open spec fn told(n: Option<u64>) -> int {
    match n {
        Some(v) => v as int,
        None => 0,
    }
}

/// The host is told the last reading of each page size, number by number, and of no size
/// that was not read.
pub proof fn law_the_last_reading_of_a_size_is_told(readings: Seq<HugetlbReading>, i: int)
    requires
        0 <= i < readings.len(),
        forall|j: int|
            i < j < readings.len() ==> (#[trigger] readings[j]).size@ != readings[i].size@,
    ensures
        ({
            let map = hugetlb_map(readings);
            let size = readings[i].size@;
            &&& map.contains_key(size)
            &&& map[size].usage == told(readings[i].usage)
            &&& map[size].max_usage == told(readings[i].max_usage)
            &&& map[size].failcnt == told(readings[i].failcnt)
        }),
    decreases readings.len(),
{
    if i < readings.len() - 1 {
        let front = readings.drop_last();
        assert forall|j: int| i < j < front.len() implies (#[trigger] front[j]).size@
            != front[i].size@ by {
            assert(readings[j] == front[j]);
        }
        law_the_last_reading_of_a_size_is_told(front, i);
        assert(readings[readings.len() - 1].size@ != readings[i].size@);
    }
}

/// A size that was not read is not told.
pub proof fn law_no_other_size_is_told(readings: Seq<HugetlbReading>, size: Seq<char>)
    requires
        forall|j: int| 0 <= j < readings.len() ==> (#[trigger] readings[j]).size@ != size,
    ensures
        !hugetlb_map(readings).contains_key(size),
    decreases readings.len(),
{
    if readings.len() > 0 {
        let front = readings.drop_last();
        assert forall|j: int| 0 <= j < front.len() implies (#[trigger] front[j]).size@ != size by {
            assert(readings[j] == front[j]);
        }
        law_no_other_size_is_told(front, size);
        assert(readings[readings.len() - 1].size@ != size);
    }
}

/// The bits of a device number, of 16 bits and signed, in 64 bits.
pub open spec fn wide(n: i16) -> int {
    if n < 0 {
        0x1_0000_0000_0000_0000 + n
    } else {
        n as int
    }
}

/// Each device has six numbers, told in one order, each under its name.
pub proof fn law_each_device_is_told_by_six_numbers(stats: Seq<IoStat>, i: int)
    requires
        0 <= i < stats.len(),
    ensures
        ({
            let e = io_entries(stats);
            let s = stats[i];
            let a = wide(s.major);
            let b = wide(s.minor);
            &&& e.len() == 6 * stats.len()
            &&& e[6 * i] == (a, b, "read"@, s.rbytes as int)
            &&& e[6 * i + 1] == (a, b, "write"@, s.wbytes as int)
            &&& e[6 * i + 2] == (a, b, "rios"@, s.rios as int)
            &&& e[6 * i + 3] == (a, b, "wios"@, s.wios as int)
            &&& e[6 * i + 4] == (a, b, "dbytes"@, s.dbytes as int)
            &&& e[6 * i + 5] == (a, b, "dios"@, s.dios as int)
        }),
    decreases stats.len(),
{
    let front = stats.drop_last();
    lemma_six_each(front);
    let d = device_entries(stats.last());
    assert(d.len() == 6);
    if i < front.len() {
        law_each_device_is_told_by_six_numbers(front, i);
    } else {
        assert(io_entries(stats)[6 * i] == d[0]);
        assert(io_entries(stats)[6 * i + 1] == d[1]);
        assert(io_entries(stats)[6 * i + 2] == d[2]);
        assert(io_entries(stats)[6 * i + 3] == d[3]);
        assert(io_entries(stats)[6 * i + 4] == d[4]);
        assert(io_entries(stats)[6 * i + 5] == d[5]);
    }
}

proof fn lemma_six_each(stats: Seq<IoStat>)
    ensures
        io_entries(stats).len() == 6 * stats.len(),
    decreases stats.len(),
{
    if stats.len() > 0 {
        lemma_six_each(stats.drop_last());
    }
}

/// Whether a line gives a key a value: two words, the second a decimal number of 64 bits.
pub open spec fn gives(line: Seq<char>, key: Seq<char>, value: u64) -> bool {
    let w = words_on(line, Sep::White);
    w.len() == 2 && w[0] == key && uint_of(w[1], 10, 0xffff_ffff_ffff_ffff) == Some(value as nat)
}

/// The value of a key is that of the last line that gives it one.
pub proof fn law_the_last_line_of_a_key_counts(
    content: Seq<char>,
    key: Seq<char>,
    value: u64,
    i: int,
)
    requires
        0 <= i < lines_of(content).len(),
        gives(lines_of(content)[i], key, value),
        forall|j: int, v: u64|
            i < j < lines_of(content).len() ==> !(#[trigger] gives(lines_of(content)[j], key, v)),
    ensures
        stat_of(content, key) == value,
        flat_map(content).contains_key(key),
{
    let ls = lines_of(content);
    lemma_last_line(ls, key, value, i);
}

proof fn lemma_last_line(ls: Seq<Seq<char>>, key: Seq<char>, value: u64, i: int)
    requires
        0 <= i < ls.len(),
        gives(ls[i], key, value),
        forall|j: int, v: u64| i < j < ls.len() ==> !(#[trigger] gives(ls[j], key, v)),
    ensures
        entries_of(ls).contains_key(key),
        entries_of(ls)[key] == value,
    decreases ls.len(),
{
    if i < ls.len() - 1 {
        let front = ls.drop_last();
        assert forall|j: int, v: u64| i < j < front.len() implies !(#[trigger] gives(
            front[j],
            key,
            v,
        )) by {
            assert(ls[j] == front[j]);
            assert(!gives(ls[j], key, v));
        }
        lemma_last_line(front, key, value, i);
        if let Some(kv) = line_entry(ls.last()) {
            assert(ls.last() == ls[ls.len() - 1]);
            assert(!gives(ls[ls.len() - 1], key, kv.1));
            lemma_bounded(ls.last());
        }
    } else {
        lemma_bounded(ls.last());
    }
}

proof fn lemma_bounded(line: Seq<char>)
    ensures
        line_entry(line) matches Some(kv) ==> gives(line, kv.0, kv.1),
        forall|key: Seq<char>, value: u64| #[trigger]
            gives(line, key, value) ==> line_entry(line) == Some((key, value)),
{
}

/// A key that no line gives a value has the value 0.
pub proof fn law_a_key_without_a_line_is_zero(content: Seq<char>, key: Seq<char>)
    requires
        forall|j: int, v: u64|
            0 <= j < lines_of(content).len() ==> !(#[trigger] gives(lines_of(content)[j], key, v)),
    ensures
        stat_of(content, key) == 0,
{
    lemma_no_line(lines_of(content), key);
}

proof fn lemma_no_line(ls: Seq<Seq<char>>, key: Seq<char>)
    requires
        forall|j: int, v: u64| 0 <= j < ls.len() ==> !(#[trigger] gives(ls[j], key, v)),
    ensures
        !entries_of(ls).contains_key(key),
    decreases ls.len(),
{
    if ls.len() > 0 {
        let front = ls.drop_last();
        assert forall|j: int, v: u64| 0 <= j < front.len() implies !(#[trigger] gives(
            front[j],
            key,
            v,
        )) by {
            assert(ls[j] == front[j]);
            assert(!gives(ls[j], key, v));
        }
        lemma_no_line(front, key);
        if let Some(kv) = line_entry(ls.last()) {
            assert(ls.last() == ls[ls.len() - 1]);
            assert(!gives(ls[ls.len() - 1], key, kv.1));
            lemma_bounded(ls.last());
        }
    }
}

} // verus!
