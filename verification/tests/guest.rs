//! Mounts, streams, traces, storages, processes, and generated sources.
use kata_fc::codegen::{remove_generated_client, replace_text, CutError};
use kata_fc::guest_io::{read_line, Budget, LineReader, LineStep, RateLimit, StreamError};
use kata_fc::mount::{
    bind_error, bind_mount_unchecked, bind_remount, create_mount_destination, destination_error,
    get_linux_mount_info, get_mount_options, get_mount_path, get_mount_type,
    next_destination_step, parse_mount_flags, parse_mount_options, BindStep, DestinationEvent,
    DestinationState, DestinationStep, MakeFailure, MountError,
    MS_BIND, MS_NODEV, MS_NOSUID, MS_PRIVATE, MS_RDONLY, MS_REC, MS_REMOUNT, MS_SHARED, MS_SLAVE,
};
use kata_fc::oci::OciMount;
use kata_fc::path::{components_of, join, parent, strip_root, strip_slashes, under};
use kata_fc::process_setup::{
    exec_exit_code, find_file, judge_sysctl, owns_stream, set_sysctls, setid, verify_cwd,
    CwdError, IdStep, SysctlStep,
};
use kata_fc::storage::{
    ensure_block_filesystem, ensure_ext4_filesystem, handle_block_storage,
    should_create_block_filesystem, Storage,
};
use kata_fc::strmap::StrMap;
use kata_fc::text::{
    chars_of, lines, parse_i32, parse_i64, parse_u64, push_i64, push_u64, split,
    split_once, string_of, trim, words, Sep,
};
use kata_fc::trace::{extract_carrier_from_ttrpc, write_span, ExportFault, ExportStep, Exporter};

fn strings(list: &[&str]) -> Vec<String> {
    list.iter().map(|s| s.to_string()).collect()
}

const MAX_MOUNT_PARAM_SIZE: usize = 4096;

#[test]
fn test_get_linux_mount_info() {
    let table = strings(&[
        "proc /proc proc rw,nosuid 0 0",
        "tmpfs /dev/shm tmpfs rw,nosuid,nodev 0 0",
    ]);
    let info = get_linux_mount_info(&table, "/dev/shm", false).unwrap();
    assert_eq!(&info.fs_type, "tmpfs");
    assert!(matches!(
        get_linux_mount_info(&table, "", false),
        Err(MountError::NoMountEntry(_))
    ));
    assert!(matches!(
        get_linux_mount_info(&table, "/sys/fs/cgroup/do_not_exist/____hi", false),
        Err(MountError::NoMountEntry(_))
    ));
    let broken = strings(&["proc /proc"]);
    assert!(matches!(
        get_linux_mount_info(&broken, "/proc", false),
        Err(MountError::InvalidMountEntry(_, _, _))
    ));
    assert!(matches!(
        get_linux_mount_info(&table, "/none", true),
        Err(MountError::Io)
    ));
}

/// What is made at a mount destination where the file system answers as told.
fn make(
    src_is_dir: bool,
    bind: bool,
    there: Option<bool>,
) -> (Vec<DestinationStep>, DestinationState) {
    let mut step = DestinationStep::MakeParent;
    let mut seen = vec![];
    loop {
        seen.push(step);
        let event = match step {
            DestinationStep::MakeParent => DestinationEvent::Done,
            DestinationStep::AskParent => DestinationEvent::Answer(true),
            DestinationStep::AskSource => DestinationEvent::Answer(src_is_dir),
            DestinationStep::MakeFile => DestinationEvent::Done,
            DestinationStep::MakeDirectory => match there {
                None => DestinationEvent::Done,
                Some(_) => DestinationEvent::Failed(MakeFailure::AlreadyExists),
            },
            DestinationStep::AskDirectory => DestinationEvent::Answer(there.unwrap_or(true)),
        };
        match next_destination_step(step, event, bind) {
            DestinationState::Due(next) => step = next,
            end => return (seen, end),
        }
    }
}

#[test]
fn test_create_mount_destination() {
    let d = create_mount_destination("/tmp/x/proc/mounts", "bind").unwrap();
    assert_eq!(d.parent, "/tmp/x/proc");
    assert!(d.bind);
    let (steps, end) = make(false, d.bind, None);
    assert!(steps.contains(&DestinationStep::MakeFile));
    assert_eq!(end, DestinationState::Ready);

    assert!(matches!(
        create_mount_destination("/", "bind"),
        Err(MountError::InvalidPath(_))
    ));

    let d = create_mount_destination("/proc/mounts", "bind").unwrap();
    let (steps, end) = make(true, d.bind, Some(false));
    assert!(!steps.contains(&DestinationStep::MakeFile));
    assert_eq!(end, DestinationState::NotDirectory);
}

#[test]
fn ordinary_mount_points_are_directories() {
    let d = create_mount_destination("/a/b", "tmpfs").unwrap();
    assert!(!d.bind);
    let (steps, end) = make(true, false, None);
    assert!(!steps.contains(&DestinationStep::MakeFile));
    assert_eq!(end, DestinationState::Ready);
    let (_, end) = make(true, false, Some(true));
    assert_eq!(end, DestinationState::Ready);
    assert_eq!(
        next_destination_step(
            DestinationStep::MakeFile,
            DestinationEvent::Failed(MakeFailure::Other),
            true
        ),
        DestinationState::IoFailed
    );
}

#[test]
fn test_parse_mount_options() {
    let (flags, data) = parse_mount_options(&vec![], MAX_MOUNT_PARAM_SIZE).unwrap();
    assert_eq!(flags, 0);
    assert!(data.is_empty());

    let mut options = strings(&["dev", "ro", "defaults", "data-option"]);
    let (flags, data) = parse_mount_options(&options, MAX_MOUNT_PARAM_SIZE).unwrap();
    assert_eq!(flags, MS_RDONLY);
    assert_eq!(&data, "data-option");

    options.push("loop".to_string());
    assert!(matches!(
        parse_mount_options(&options, MAX_MOUNT_PARAM_SIZE),
        Err(MountError::InvalidMountOption(_))
    ));

    let idx = options.len() - 1;
    options[idx] = " ".repeat(MAX_MOUNT_PARAM_SIZE + 1);
    assert!(matches!(
        parse_mount_options(&options, MAX_MOUNT_PARAM_SIZE),
        Err(MountError::MountOptionTooBig)
    ));
}

#[test]
fn the_last_option_wins() {
    let parse = |list: &[&str]| parse_mount_options(&strings(list), 100).unwrap();
    assert_eq!(parse(&["ro", "rw"]).0, 0);
    assert_eq!(parse(&["rw", "ro"]).0, MS_RDONLY);
    assert_eq!(parse(&["nosuid", "nodev", "suid"]).0, MS_NODEV);
    assert_eq!(parse(&["rbind"]).0, MS_BIND | MS_REC);
    assert_eq!(parse_mount_flags(MS_RDONLY, "rw"), Some(0));
    assert_eq!(parse_mount_flags(0, "mode=755"), None);
    assert_eq!(parse(&["a=1", "nosuid", "b=2"]), (MS_NOSUID, "a=1,b=2".to_string()));
}

#[test]
fn bind_mounts_end_as_they_were_asked_for() {
    assert_eq!(
        bind_mount_unchecked("/s", "/d", true, MS_SLAVE).unwrap(),
        vec![
            BindStep::Resolve,
            BindStep::MakeDestination,
            BindStep::Bind,
            BindStep::Propagate(MS_SLAVE),
            BindStep::Remount(MS_BIND | MS_REMOUNT | MS_RDONLY),
        ]
    );
    assert!(matches!(
        bind_mount_unchecked("", "", false, MS_SLAVE),
        Err(MountError::NullMountPointPath)
    ));
    assert!(matches!(
        bind_mount_unchecked("/s", "", false, MS_SLAVE),
        Err(MountError::NullMountPointPath)
    ));
    assert!(matches!(
        bind_remount("", true),
        Err(MountError::NullMountPointPath)
    ));
    let steps = bind_mount_unchecked("/s", "/d", false, MS_SHARED).unwrap();
    assert!(!steps.iter().any(|s| matches!(s, BindStep::Remount(_))));
    let steps = bind_mount_unchecked("/s", "/d", false, MS_PRIVATE | MS_SHARED).unwrap();
    assert!(steps.contains(&BindStep::RefusePropagation));
    assert!(bind_remount("/d", true)
        .unwrap()
        .iter()
        .any(|s| matches!(s, BindStep::Remount(f) if f & MS_RDONLY != 0)));
    assert!(matches!(
        bind_error(BindStep::Bind, "/s", "/d", 1),
        Some(MountError::BindMount(_, _, 1))
    ));
    assert!(matches!(
        bind_error(BindStep::RefusePropagation, "/s", "/d", 1),
        Some(MountError::InvalidPgMountFlag)
    ));
    assert!(bind_error(BindStep::MakeDestination, "/s", "/d", 1).is_none());
    assert!(matches!(
        destination_error(DestinationState::NotDirectory, "/d"),
        Some(MountError::InvalidPath(ref p)) if p == "/d"
    ));
    assert!(matches!(
        destination_error(DestinationState::IoFailed, "/d"),
        Some(MountError::Io)
    ));
    assert!(destination_error(DestinationState::Ready, "/d").is_none());
}

#[test]
fn parts_of_a_mount_have_defaults() {
    let m = OciMount {
        destination: "/d".to_string(),
        typ: None,
        source: None,
        options: None,
    };
    assert_eq!(get_mount_path(&m.source), "");
    assert_eq!(get_mount_path(&Some("/s".to_string())), "/s");
    assert!(get_mount_options(&m.options).is_empty());
    assert_eq!(get_mount_options(&Some(strings(&["ro"]))), strings(&["ro"]));
    assert_eq!(get_mount_type(&m), "bind");
}

#[test]
fn records_are_bounded_and_eof_is_preserved() {
    let input = &b"abc\nxy"[..];
    let (r, used) = read_line(input, 4);
    assert_eq!(r.unwrap().unwrap(), "abc");
    let input = &input[used..];
    let (r, used) = read_line(input, 4);
    assert_eq!(r.unwrap().unwrap(), "xy");
    let input = &input[used..];
    assert!(read_line(input, 4).0.unwrap().is_none());
    assert!(matches!(
        read_line(b"abcde", 4).0,
        Err(StreamError::RecordTooLong)
    ));
    assert!(matches!(
        read_line(&[255, 10], 4).0,
        Err(StreamError::NotText)
    ));
}

#[test]
fn records_do_not_depend_on_pieces() {
    let mut reader = LineReader::new(10);
    assert_eq!(reader.take(b"ab").unwrap(), LineStep::More(2));
    assert_eq!(reader.take(b"cd\nrest").unwrap(), LineStep::Complete(3));
    assert_eq!(reader.finish().unwrap().unwrap(), "abcd");
    assert_eq!(read_line(b"abcd\nrest", 10).0.unwrap().unwrap(), "abcd");
}

#[test]
fn rate_budget_counts_both_records_and_bytes() {
    let mut budget = RateLimit::new(2, 4);
    budget.check(4).unwrap();
    assert!(budget.check(1).is_err());
    budget.check(0).unwrap();
    assert!(budget.check(0).is_err());
}

#[test]
fn a_budget_is_renewed() {
    let mut budget = Budget {
        records: 0,
        bytes: 0,
        max_records: 1,
        max_bytes: 10,
    };
    budget.spend(10, 0).unwrap();
    assert_eq!(budget.spend(1, 0), Err(StreamError::TooFast));
    assert_eq!((budget.records, budget.bytes), (1, 10));
    budget.spend(1, 1).unwrap();
    assert_eq!((budget.records, budget.bytes), (1, 1));
    // Of a new window too much is still too much, and nothing is used up.
    assert_eq!(budget.spend(11, 7), Err(StreamError::TooFast));
    assert_eq!((budget.records, budget.bytes), (0, 0));
}

#[test]
fn spans_are_framed() {
    assert_eq!(
        write_span(&vec![1, 2, 3]),
        vec![0, 0, 0, 0, 0, 0, 0, 3, 1, 2, 3]
    );
    let metadata = vec![
        ("a".to_string(), strings(&["1", "2"])),
        ("b".to_string(), vec![]),
    ];
    let carrier = extract_carrier_from_ttrpc(&metadata);
    assert_eq!(carrier.get("a").unwrap(), "1,2");
    assert_eq!(carrier.get("b").unwrap(), "");
    let mut e = Exporter::new();
    assert_eq!(e.begin(), ExportStep::Connect);
    assert_eq!(e.connect(false), Err(ExportFault::Connection));
    assert_eq!(e.begin(), ExportStep::Connect);
    assert_eq!(e.connect(true), Ok(()));
    assert_eq!(e.begin(), ExportStep::Send);
    assert_eq!(e.sent(true), Ok(()));
    assert_eq!(e.begin(), ExportStep::Send);
    assert_eq!(e.sent(false), Err(ExportFault::Io));
    assert_eq!(e.begin(), ExportStep::Connect);
    e.connect(true).unwrap();
    e.shutdown();
    assert!(!e.connected);
}

#[test]
fn only_one_file_system_is_made() {
    let mut s = Storage {
        source: "/dev/vdb".to_string(),
        fstype: "ext4".to_string(),
        driver_options: vec![],
    };
    assert!(!should_create_block_filesystem(&s));
    assert_eq!(handle_block_storage(&s).unwrap(), None);
    s.driver_options = strings(&["create_filesystem"]);
    assert!(should_create_block_filesystem(&s));
    let args = strings(&[
        "-F",
        "-O",
        "^has_journal",
        "-m",
        "0",
        "-i",
        "163840",
        "-I",
        "128",
        "/dev/vdb",
    ]);
    assert_eq!(ensure_ext4_filesystem("/dev/vdb"), args);
    assert_eq!(ensure_block_filesystem(&s).unwrap(), args);
    assert_eq!(handle_block_storage(&s).unwrap(), Some(args));
    s.fstype = "xfs".to_string();
    let e = ensure_block_filesystem(&s).unwrap_err();
    assert!(e.message().contains("xfs"));
}

#[test]
fn groups_change_before_users() {
    let steps = setid(1000, 100);
    let group = steps.iter().position(|s| *s == IdStep::SetGroup(100));
    let user = steps.iter().position(|s| *s == IdStep::SetUser(1000));
    assert!(group.unwrap() < user.unwrap());
}

#[test]
fn processes_are_set_up() {
    assert_eq!(verify_cwd(Ok(())), Ok(()));
    assert_eq!(verify_cwd(Err(2)), Err(CwdError::Outside));
    assert_eq!(verify_cwd(Err(13)), Err(CwdError::Unknown(13)));
    assert!(!owns_stream(259, 259));
    assert!(owns_stream(1, 259));
    assert_eq!(
        find_file("/bin:/usr/bin", "ls"),
        strings(&["/bin/ls", "/usr/bin/ls"])
    );
    assert_eq!(judge_sysctl(Ok(())), SysctlStep::Write);
    assert_eq!(
        set_sysctls(&vec![("kernel.x".to_string(), "1".to_string())]),
        vec![("/proc/sys/kernel/x".to_string(), "1".to_string())]
    );
    assert_ne!(exec_exit_code(Some(2)), exec_exit_code(Some(13)));
}

#[test]
fn generated_clients_are_cut_out() {
    let client = "#[derive(Clone)]\npub struct AClient {}\nimpl AClient {}\n";
    let source = format!("head\n{}\nstruct Method {{}}\ntail", client);
    assert_eq!(
        remove_generated_client(&source, "AClient", "Method"),
        Ok("head\n\nstruct Method {}\ntail".to_string())
    );
    assert_eq!(
        remove_generated_client("nothing", "AClient", "Method"),
        Err(CutError::NoClient)
    );
    assert_eq!(
        remove_generated_client(client, "AClient", "Method"),
        Err(CutError::NoBoundary)
    );
    let again = format!("{} AClient", source);
    assert_eq!(
        remove_generated_client(&again, "AClient", "Method"),
        Err(CutError::StillMentioned)
    );
    assert_eq!(replace_text("aXbXc", "X", "--"), "a--b--c");
    assert_eq!(replace_text("aaa", "aa", "b"), "ba");
    for (text, from, to) in [("ab", "", "-"), ("", "", "x"), ("", "a", "x"), ("aé", "", "")] {
        assert_eq!(replace_text(text, from, to), text.replace(from, to));
    }
}

#[test]
fn paths_are_taken_apart() {
    assert_eq!(join("/a", "b"), "/a/b");
    assert_eq!(join("/a", "/b"), "/b");
    assert_eq!(strip_root("/a/b"), "a/b");
    assert_eq!(strip_slashes("/a/b/"), "a/b");
    assert_eq!(components_of(&chars_of("/a/./b//c")).len(), 3);
    assert!(under("/dev/vfio/1", "/dev/vfio"));
    assert!(!under("/dev/vfio1", "/dev/vfio"));
    assert_eq!(parent("/a/b").as_deref(), Some("/a"));
    assert_eq!(parent("/"), None);
}

#[test]
fn texts_are_taken_apart() {
    let show = |v: Vec<Vec<char>>| v.iter().map(|c| string_of(c)).collect::<Vec<_>>();
    assert_eq!(
        show(split(&chars_of("a,,b"), Sep::Char(','))),
        strings(&["a", "", "b"])
    );
    assert_eq!(show(words(&chars_of(" a \t b "), Sep::White)), strings(&["a", "b"]));
    assert_eq!(show(lines(&chars_of("a\r\nb\n"))), strings(&["a", "b"]));
    assert_eq!(string_of(&trim(&chars_of("\u{3000} x\n"))), "x");
    assert_eq!(parse_u64(&chars_of("+ff"), 16), Some(255));
    assert_eq!(parse_u64(&chars_of("18446744073709551616"), 10), None);
    assert_eq!(parse_i64(&chars_of("-9223372036854775808")), Some(i64::MIN));
    assert_eq!(parse_i32(&chars_of("-2147483649")), None);
    assert_eq!(parse_i32(&chars_of("-")), None);
    let (a, b) = split_once(&chars_of("k=v=w"), '=').unwrap();
    assert_eq!((string_of(&a), string_of(&b)), ("k".to_string(), "v=w".to_string()));
    let mut s = String::new();
    push_u64(&mut s, u64::MAX);
    push_i64(&mut s, i64::MIN);
    assert_eq!(s, "18446744073709551615-9223372036854775808");
}

#[test]
fn a_map_by_text_keeps_one_value_for_each_key() {
    let mut m = StrMap::new();
    assert!(m.insert("a".to_string(), 1).is_none());
    assert_eq!(m.insert("a".to_string(), 2), Some(1));
    assert!(m.insert("b".to_string(), 3).is_none());
    assert_eq!(m.len(), 2);
    assert_eq!(m.entry(0), (&"a".to_string(), &2));
    *m.get_mut("b").unwrap() = 4;
    assert_eq!(m.get("b"), Some(&4));
    assert_eq!(m.remove("a"), Some(2));
    assert!(!m.contains_key("a"));
    assert_eq!(m.remove("a"), None);
}
