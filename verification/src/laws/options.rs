//! What the options of mounts come to, whatever they are.
use vstd::prelude::*;

use crate::mount::{changed, clears, comma_joined, flag_change, options_parsed, sets, FlagChange};

verus! {

/// Flags once an option is applied to them, where it stands for one.
pub open spec fn applied(flags: u64, opt: Seq<char>) -> Option<u64> {
    match flag_change(opt) {
        Some(c) => Some(changed(flags, c)),
        None => None,
    }
}

/// Whether two options are opposites: one sets a bit and the other clears it.
pub open spec fn opposites(set: Seq<char>, clear: Seq<char>, bit: u64) -> bool {
    ||| set == "noexec"@ && clear == "exec"@ && bit == 8u64
    ||| set == "nodev"@ && clear == "dev"@ && bit == 4u64
    ||| set == "nosuid"@ && clear == "suid"@ && bit == 2u64
    ||| set == "ro"@ && clear == "rw"@ && bit == 1u64
    ||| set == "sync"@ && clear == "async"@ && bit == 16u64
    ||| set == "noatime"@ && clear == "atime"@ && bit == 1024u64
    ||| set == "nodiratime"@ && clear == "diratime"@ && bit == 2048u64
    ||| set == "relatime"@ && clear == "norelatime"@ && bit == 0x200000u64
    ||| set == "mand"@ && clear == "nomand"@ && bit == 64u64
    ||| set == "silent"@ && clear == "loud"@ && bit == 32768u64
    ||| set == "iversion"@ && clear == "noiversion"@ && bit == 0x800000u64
    ||| set == "strictatime"@ && clear == "nostrictatime"@ && bit == 0x1000000u64
}

/// Whether an option stands for flags.
pub open spec fn is_named(opt: Seq<char>) -> bool {
    ||| opt == "defaults"@
    ||| opt == "async"@
    ||| opt == "atime"@
    ||| opt == "dev"@
    ||| opt == "diratime"@
    ||| opt == "exec"@
    ||| opt == "loud"@
    ||| opt == "noiversion"@
    ||| opt == "nomand"@
    ||| opt == "norelatime"@
    ||| opt == "nostrictatime"@
    ||| opt == "rw"@
    ||| opt == "suid"@
    ||| opt == "bind"@
    ||| opt == "dirsync"@
    ||| opt == "iversion"@
    ||| opt == "mand"@
    ||| opt == "noatime"@
    ||| opt == "nodev"@
    ||| opt == "nodiratime"@
    ||| opt == "noexec"@
    ||| opt == "nosuid"@
    ||| opt == "relatime"@
    ||| opt == "remount"@
    ||| opt == "ro"@
    ||| opt == "silent"@
    ||| opt == "strictatime"@
    ||| opt == "sync"@
    ||| opt == "unbindable"@
    ||| opt == "private"@
    ||| opt == "shared"@
    ||| opt == "slave"@
    ||| opt == "rbind"@
    ||| opt == "runbindable"@
    ||| opt == "rprivate"@
    ||| opt == "rshared"@
    ||| opt == "rslave"@
}

/// The lengths of the names of options, and the letters in which those of one length differ.
proof fn lemma_letters()
    ensures
        "defaults"@.len() == 8,
        "async"@.len() == 5,
        "atime"@.len() == 5,
        "dev"@.len() == 3,
        "diratime"@.len() == 8,
        "exec"@.len() == 4,
        "loud"@.len() == 4,
        "noiversion"@.len() == 10,
        "nomand"@.len() == 6,
        "norelatime"@.len() == 10,
        "nostrictatime"@.len() == 13,
        "rw"@.len() == 2,
        "suid"@.len() == 4,
        "bind"@.len() == 4,
        "dirsync"@.len() == 7,
        "iversion"@.len() == 8,
        "mand"@.len() == 4,
        "noatime"@.len() == 7,
        "nodev"@.len() == 5,
        "nodiratime"@.len() == 10,
        "noexec"@.len() == 6,
        "nosuid"@.len() == 6,
        "relatime"@.len() == 8,
        "remount"@.len() == 7,
        "ro"@.len() == 2,
        "silent"@.len() == 6,
        "strictatime"@.len() == 11,
        "sync"@.len() == 4,
        "unbindable"@.len() == 10,
        "private"@.len() == 7,
        "shared"@.len() == 6,
        "slave"@.len() == 5,
        "rbind"@.len() == 5,
        "runbindable"@.len() == 11,
        "rprivate"@.len() == 8,
        "rshared"@.len() == 7,
        "rslave"@.len() == 6,
        "loop"@.len() == 4,
        "defaults"@[0] == 'd',
        "defaults"@[1] == 'e',
        "async"@[0] == 'a',
        "async"@[1] == 's',
        "atime"@[0] == 'a',
        "atime"@[1] == 't',
        "diratime"@[0] == 'd',
        "diratime"@[1] == 'i',
        "exec"@[0] == 'e',
        "loud"@[0] == 'l',
        "loud"@[2] == 'u',
        "noiversion"@[0] == 'n',
        "noiversion"@[2] == 'i',
        "nomand"@[0] == 'n',
        "nomand"@[2] == 'm',
        "norelatime"@[0] == 'n',
        "norelatime"@[2] == 'r',
        "rw"@[1] == 'w',
        "suid"@[0] == 's',
        "suid"@[1] == 'u',
        "bind"@[0] == 'b',
        "dirsync"@[0] == 'd',
        "iversion"@[0] == 'i',
        "mand"@[0] == 'm',
        "noatime"@[0] == 'n',
        "nodev"@[0] == 'n',
        "nodiratime"@[0] == 'n',
        "nodiratime"@[2] == 'd',
        "noexec"@[0] == 'n',
        "noexec"@[2] == 'e',
        "nosuid"@[0] == 'n',
        "nosuid"@[2] == 's',
        "relatime"@[0] == 'r',
        "relatime"@[1] == 'e',
        "remount"@[0] == 'r',
        "remount"@[1] == 'e',
        "ro"@[1] == 'o',
        "silent"@[0] == 's',
        "silent"@[1] == 'i',
        "strictatime"@[0] == 's',
        "sync"@[0] == 's',
        "sync"@[1] == 'y',
        "unbindable"@[0] == 'u',
        "private"@[0] == 'p',
        "shared"@[0] == 's',
        "shared"@[1] == 'h',
        "slave"@[0] == 's',
        "rbind"@[0] == 'r',
        "runbindable"@[0] == 'r',
        "rprivate"@[0] == 'r',
        "rprivate"@[1] == 'p',
        "rshared"@[0] == 'r',
        "rshared"@[1] == 's',
        "rslave"@[0] == 'r',
        "loop"@[0] == 'l',
        "loop"@[2] == 'o',
{
    reveal_strlit("defaults");
    reveal_strlit("async");
    reveal_strlit("atime");
    reveal_strlit("dev");
    reveal_strlit("diratime");
    reveal_strlit("exec");
    reveal_strlit("loud");
    reveal_strlit("noiversion");
    reveal_strlit("nomand");
    reveal_strlit("norelatime");
    reveal_strlit("nostrictatime");
    reveal_strlit("rw");
    reveal_strlit("suid");
    reveal_strlit("bind");
    reveal_strlit("dirsync");
    reveal_strlit("iversion");
    reveal_strlit("mand");
    reveal_strlit("noatime");
    reveal_strlit("nodev");
    reveal_strlit("nodiratime");
    reveal_strlit("noexec");
    reveal_strlit("nosuid");
    reveal_strlit("relatime");
    reveal_strlit("remount");
    reveal_strlit("ro");
    reveal_strlit("silent");
    reveal_strlit("strictatime");
    reveal_strlit("sync");
    reveal_strlit("unbindable");
    reveal_strlit("private");
    reveal_strlit("shared");
    reveal_strlit("slave");
    reveal_strlit("rbind");
    reveal_strlit("runbindable");
    reveal_strlit("rprivate");
    reveal_strlit("rshared");
    reveal_strlit("rslave");
    reveal_strlit("loop");
}

proof fn lemma_clearing_options()
    ensures
        flag_change("defaults"@) == clears(0),
        flag_change("async"@) == clears(16),
        flag_change("atime"@) == clears(1024),
        flag_change("dev"@) == clears(4),
        flag_change("diratime"@) == clears(2048),
        flag_change("exec"@) == clears(8),
        flag_change("loud"@) == clears(32768),
        flag_change("noiversion"@) == clears(0x800000),
        flag_change("nomand"@) == clears(64),
        flag_change("norelatime"@) == clears(0x200000),
        flag_change("nostrictatime"@) == clears(0x1000000),
        flag_change("rw"@) == clears(1),
        flag_change("suid"@) == clears(2),
{
    lemma_letters();
}

proof fn lemma_setting_options()
    ensures
        flag_change("bind"@) == sets(4096),
        flag_change("dirsync"@) == sets(128),
        flag_change("iversion"@) == sets(0x800000),
        flag_change("mand"@) == sets(64),
        flag_change("noatime"@) == sets(1024),
        flag_change("nodev"@) == sets(4),
        flag_change("nodiratime"@) == sets(2048),
        flag_change("noexec"@) == sets(8),
        flag_change("nosuid"@) == sets(2),
        flag_change("relatime"@) == sets(0x200000),
        flag_change("remount"@) == sets(32),
        flag_change("ro"@) == sets(1),
        flag_change("silent"@) == sets(32768),
        flag_change("strictatime"@) == sets(0x1000000),
        flag_change("sync"@) == sets(16),
        flag_change("unbindable"@) == sets(0x20000),
        flag_change("private"@) == sets(0x40000),
        flag_change("shared"@) == sets(0x100000),
        flag_change("slave"@) == sets(0x80000),
{
    lemma_letters();
}

proof fn lemma_recursive_options()
    ensures
        flag_change("rbind"@) == sets(20480),
        flag_change("runbindable"@) == sets(0x24000),
        flag_change("rprivate"@) == sets(0x44000),
        flag_change("rshared"@) == sets(0x104000),
        flag_change("rslave"@) == sets(0x84000),
{
    lemma_letters();
    assert(4096u64 | 16384u64 == 20480 && 0x2_0000u64 | 16384u64 == 0x24000 && 0x4_0000u64
        | 16384u64 == 0x44000 && 0x10_0000u64 | 16384u64 == 0x104000 && 0x8_0000u64 | 16384u64
        == 0x84000) by (bit_vector);
}

proof fn lemma_change(f: u64, b: u64)
    by (bit_vector)
    ensures
        (f & !b) | 0u64 == f & !b,
        (f & !0u64) | b == f | b,
        (f & !0u64) | 0u64 == f,
{
}

proof fn lemma_changed(f: u64, b: u64)
    ensures
        changed(f, clears(b)->0) == f & !b,
        changed(f, sets(b)->0) == f | b,
        changed(f, clears(0)->0) == f,
{
    lemma_change(f, b);
}

/// Each option works on the bits that it is named after, whatever the flags are: it sets
/// them or clears them, and leaves the others.
pub proof fn law_each_option_works_on_its_bits(f: u64)
    ensures
        applied(f, "defaults"@) == Some(f),
        applied(f, "async"@) == Some(f & !16u64),
        applied(f, "atime"@) == Some(f & !1024u64),
        applied(f, "dev"@) == Some(f & !4u64),
        applied(f, "diratime"@) == Some(f & !2048u64),
        applied(f, "exec"@) == Some(f & !8u64),
        applied(f, "loud"@) == Some(f & !32768u64),
        applied(f, "noiversion"@) == Some(f & !0x800000u64),
        applied(f, "nomand"@) == Some(f & !64u64),
        applied(f, "norelatime"@) == Some(f & !0x200000u64),
        applied(f, "nostrictatime"@) == Some(f & !0x1000000u64),
        applied(f, "rw"@) == Some(f & !1u64),
        applied(f, "suid"@) == Some(f & !2u64),
        applied(f, "bind"@) == Some(f | 4096u64),
        applied(f, "dirsync"@) == Some(f | 128u64),
        applied(f, "iversion"@) == Some(f | 0x800000u64),
        applied(f, "mand"@) == Some(f | 64u64),
        applied(f, "noatime"@) == Some(f | 1024u64),
        applied(f, "nodev"@) == Some(f | 4u64),
        applied(f, "nodiratime"@) == Some(f | 2048u64),
        applied(f, "noexec"@) == Some(f | 8u64),
        applied(f, "nosuid"@) == Some(f | 2u64),
        applied(f, "relatime"@) == Some(f | 0x200000u64),
        applied(f, "remount"@) == Some(f | 32u64),
        applied(f, "ro"@) == Some(f | 1u64),
        applied(f, "silent"@) == Some(f | 32768u64),
        applied(f, "strictatime"@) == Some(f | 0x1000000u64),
        applied(f, "sync"@) == Some(f | 16u64),
        applied(f, "unbindable"@) == Some(f | 0x20000u64),
        applied(f, "private"@) == Some(f | 0x40000u64),
        applied(f, "shared"@) == Some(f | 0x100000u64),
        applied(f, "slave"@) == Some(f | 0x80000u64),
        applied(f, "rbind"@) == Some(f | 20480u64),
        applied(f, "runbindable"@) == Some(f | 0x24000u64),
        applied(f, "rprivate"@) == Some(f | 0x44000u64),
        applied(f, "rshared"@) == Some(f | 0x104000u64),
        applied(f, "rslave"@) == Some(f | 0x84000u64),
{
    lemma_clearing_options();
    lemma_setting_options();
    lemma_recursive_options();
    assert forall|b: u64|
        #![trigger changed(f, clears(b)->0)]
        #![trigger changed(f, sets(b)->0)]
        changed(f, clears(b)->0) == f & !b && changed(f, sets(b)->0) == f | b by {
        lemma_changed(f, b);
    }
    lemma_changed(f, 0);
}

/// An option that is none of those names stands for no flag.
pub proof fn law_other_options_are_no_flags(f: u64, opt: Seq<char>)
    requires
        !is_named(opt),
    ensures
        applied(f, opt) is None,
{
}

/// An option behind its opposite decides alone: the bit is as the last one says, and every
/// other bit is as it was.
pub proof fn law_an_option_undoes_its_opposite(
    f: u64,
    set: Seq<char>,
    clear: Seq<char>,
    bit: u64,
)
    requires
        opposites(set, clear, bit),
    ensures
        applied(f, set) is Some,
        applied(f, clear) is Some,
        applied(applied(f, set)->0, clear) == Some(f & !bit),
        applied(applied(f, clear)->0, set) == Some(f | bit),
        (f & !bit) & bit == 0,
        (f | bit) & bit == bit,
        (f & !bit) & !bit == f & !bit,
        (f | bit) & !bit == f & !bit,
{
    law_each_option_works_on_its_bits(f);
    law_each_option_works_on_its_bits(f | bit);
    law_each_option_works_on_its_bits(f & !bit);
    lemma_bits(f, bit);
}

proof fn lemma_bits(f: u64, bit: u64)
    by (bit_vector)
    ensures
        (f | bit) & !bit == f & !bit,
        (f & !bit) | bit == f | bit,
        (f & !bit) & bit == 0,
        (f | bit) & bit == bit,
        (f & !bit) & !bit == f & !bit,
{
}

/// Whether an option is a loop device, which cannot be asked for.
pub open spec fn is_loop(opt: Seq<char>) -> bool {
    opt == "loop"@
}

proof fn lemma_no_loop()
    ensures
        !is_named("loop"@),
{
    lemma_letters();
}

/// Options are accepted unless a loop device is asked for. Those that stand for no flag are
/// kept, in order, and no others are.
pub proof fn law_what_is_no_flag_is_kept(options: Seq<Seq<char>>)
    ensures
        options_parsed(options) is None <==> options.contains("loop"@),
        options_parsed(options) matches Some(p) ==> p.data == options.filter(
            |o: Seq<char>| !is_named(o),
        ),
    decreases options.len(),
{
    reveal(Seq::filter);
    if options.len() > 0 {
        let front = options.drop_last();
        let last = options.last();
        law_what_is_no_flag_is_kept(front);
        lemma_no_loop();
        lemma_named(last);
        assert(options[options.len() - 1] == last);
        if front.contains("loop"@) {
            let i = front.index_of("loop"@);
            assert(options[i] == "loop"@);
        }
        if options.contains("loop"@) && last != "loop"@ {
            let i = options.index_of("loop"@);
            assert(front[i] == "loop"@);
        }
    }
}

proof fn lemma_named(opt: Seq<char>)
    ensures
        flag_change(opt) is Some <==> is_named(opt),
{
}

/// Whether a change leaves a bit alone.
spec fn spares(c: FlagChange, bit: u64) -> bool {
    c.clear & bit == 0 && c.set & bit == 0
}

proof fn lemma_disjoint(c: u64, s: u64, b: u64)
    by (bit_vector)
    requires
        b == 1 || b == 2 || b == 4 || b == 8 || b == 16 || b == 64 || b == 1024 || b == 2048 || b == 32768 || b == 0x200000 || b == 0x800000 || b == 0x1000000,
    ensures
        c == 0 ==> c & b == 0,
        (c == 1 || c == 2 || c == 4 || c == 8 || c == 16 || c == 64 || c == 1024 || c == 2048 || c == 32768 || c == 0x200000 || c == 0x800000 || c == 0x1000000) && c != b ==> c & b == 0,
        s == 0 ==> s & b == 0,
        (s == 1 || s == 2 || s == 4 || s == 8 || s == 16 || s == 32 || s == 64 || s == 128 || s == 1024 || s == 2048 || s == 4096 || s == 20480 || s == 32768 || s == 0x20000 || s == 0x24000 || s == 0x40000 || s == 0x44000 || s == 0x80000 || s == 0x84000 || s == 0x100000 || s == 0x104000 || s == 0x200000 || s == 0x800000 || s == 0x1000000) && s != b ==> s & b == 0,
{
}

proof fn lemma_others_spare(opt: Seq<char>, set: Seq<char>, clear: Seq<char>, bit: u64)
    requires
        opposites(set, clear, bit),
        is_named(opt),
        opt != set,
        opt != clear,
    ensures
        flag_change(opt) is Some,
        spares(flag_change(opt)->0, bit),
{
    lemma_clearing_options();
    lemma_setting_options();
    lemma_recursive_options();
    let c = flag_change(opt)->0;
    lemma_disjoint(c.clear, c.set, bit);
}

proof fn lemma_kept(f: u64, c: u64, s: u64, b: u64)
    by (bit_vector)
    requires
        c & b == 0,
        s & b == 0,
    ensures
        ((f & !c) | s) & b == f & b,
{
}

/// How a bit comes out of options: it is set where the last of the two options that are named
/// after it sets it, and clear where that one clears it or where there is none.
pub proof fn law_the_last_of_two_opposites_decides(
    options: Seq<Seq<char>>,
    set: Seq<char>,
    clear: Seq<char>,
    bit: u64,
    i: int,
)
    requires
        opposites(set, clear, bit),
        options_parsed(options) is Some,
        -1 <= i < options.len(),
        i >= 0 ==> options[i] == set || options[i] == clear,
        forall|j: int|
            i < j < options.len() ==> #[trigger] options[j] != set && options[j] != clear,
    ensures
        options_parsed(options)->0.flags & bit == if i >= 0 && options[i] == set {
            bit
        } else {
            0
        },
    decreases options.len(),
{
    if options.len() == 0 {
        assert(0u64 & bit == 0) by (bit_vector);
    } else {
        let front = options.drop_last();
        let last = options.last();
        let f = options_parsed(front)->0.flags;
        if i == options.len() - 1 {
            law_each_option_works_on_its_bits(f);
            lemma_bits(f, bit);
            lemma_pair_differs(set, clear, bit);
        } else {
            assert(options[options.len() - 1] == last);
            assert forall|j: int| i < j < front.len() implies #[trigger] front[j] != set && front[j]
                != clear by {
                assert(options[j] == front[j]);
            }
            law_the_last_of_two_opposites_decides(front, set, clear, bit, i);
            lemma_named(last);
            if is_named(last) {
                lemma_others_spare(last, set, clear, bit);
                let c = flag_change(last)->0;
                lemma_kept(f, c.clear, c.set, bit);
            }
        }
    }
}

proof fn lemma_pair_differs(set: Seq<char>, clear: Seq<char>, bit: u64)
    requires
        opposites(set, clear, bit),
    ensures
        set != clear,
{
    lemma_letters();
}

/// The options that are kept are written with a comma between each two.
pub proof fn law_kept_options_are_joined_by_commas(
    a: Seq<Seq<char>>,
    b: Seq<Seq<char>>,
    part: Seq<char>,
)
    requires
        a.len() > 0,
        b.len() > 0,
    ensures
        comma_joined(Seq::empty()) == Seq::<char>::empty(),
        comma_joined(seq![part]) == part,
        comma_joined(a + b) == comma_joined(a) + seq![','] + comma_joined(b),
    decreases b.len(),
{
    let all = a + b;
    assert(all.drop_last() =~= a + b.drop_last());
    assert(all.last() == b.last());
    if b.len() == 1 {
        assert(a + b.drop_last() =~= a);
        assert(comma_joined(a).push(',') + b[0] =~= comma_joined(a) + seq![','] + comma_joined(b));
    } else {
        law_kept_options_are_joined_by_commas(a, b.drop_last(), part);
        assert((comma_joined(a) + seq![','] + comma_joined(b.drop_last())).push(',') + b.last()
            =~= comma_joined(a) + seq![','] + (comma_joined(b.drop_last()).push(',') + b.last()));
    }
}

} // verus!
