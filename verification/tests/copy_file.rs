//! Copies of files into the shared directory, on a tree in memory.
use kata_fc::copy_file::{
    do_copy_file, judge_copy, to_path, CopyFileRequest, CopyOutcome, CopyRefusal, CopyStep,
    CopyVerdict, EEXIST, EISDIR, ENOENT, S_IFDIR, S_IFLNK,
};
use std::collections::BTreeMap;

const S_IFREG: u32 = 0o100000;
const BASE: &str = "/top/shared";

#[derive(Clone, Debug, PartialEq)]
enum Node {
    Dir(u32),
    File(u32, Vec<u8>),
    Link(Vec<u8>),
}

type Place = Vec<String>;

/// What stands beneath the shared directory, by its path.
struct Tree {
    there: bool,
    nodes: BTreeMap<Place, Node>,
}

fn place(path: &str) -> Place {
    path.split('/').map(|p| p.to_string()).collect()
}

fn parts(components: &Vec<Vec<char>>) -> Place {
    components.iter().map(|c| c.iter().collect()).collect()
}

impl Tree {
    fn new(dirs: &[&str]) -> Tree {
        let mut nodes = BTreeMap::new();
        for d in dirs {
            nodes.insert(place(d), Node::Dir(0o755));
        }
        Tree { there: true, nodes }
    }

    fn get(&self, path: &str) -> Option<&Node> {
        self.nodes.get(&place(path))
    }

    /// Walks to the parent without leaving the tree; a link leads to nothing in it.
    fn resolve(&self, target: &Place) -> Result<Place, i32> {
        if !self.there {
            return Err(ENOENT);
        }
        let mut at: Place = vec![];
        let (name, parents) = target.split_last().ok_or(ENOENT)?;
        for p in parents {
            if p == ".." {
                at.pop();
                continue;
            }
            at.push(p.clone());
            match self.nodes.get(&at) {
                Some(Node::Dir(_)) => {}
                _ => return Err(ENOENT),
            }
        }
        at.push(name.clone());
        Ok(at)
    }

    fn perform(&mut self, step: CopyStep, target: &Place, temp: &Place, data: &[u8]) -> CopyOutcome {
        let found = self.resolve(target);
        let beside = self.resolve(temp);
        let result: Result<CopyOutcome, i32> = (|| {
            match step {
                CopyStep::RemoveFile => {
                    let at = found?;
                    match self.nodes.get(&at) {
                        None => return Err(ENOENT),
                        Some(Node::Dir(_)) => return Err(EISDIR),
                        _ => self.nodes.remove(&at),
                    };
                }
                CopyStep::MakeDirectory(mode) => {
                    let at = found?;
                    if self.nodes.contains_key(&at) {
                        return Err(EEXIST);
                    }
                    self.nodes.insert(at, Node::Dir(mode));
                }
                CopyStep::OpenDirectory => {
                    found?;
                }
                CopyStep::RemoveAll => {
                    let at = found?;
                    if !self.nodes.contains_key(&at) {
                        return Err(ENOENT);
                    }
                    self.nodes.retain(|k, _| !k.starts_with(&at));
                }
                CopyStep::MakeLink => {
                    let at = found?;
                    if self.nodes.contains_key(&at) {
                        return Err(EEXIST);
                    }
                    self.nodes.insert(at, Node::Link(data.to_vec()));
                }
                CopyStep::OpenTemp(empty, mode) => {
                    let at = beside?;
                    if empty || !self.nodes.contains_key(&at) {
                        self.nodes.insert(at, Node::File(mode, vec![]));
                    }
                }
                CopyStep::WriteAt(offset) => {
                    if let Some(Node::File(_, d)) = self.nodes.get_mut(&beside?) {
                        d.resize(offset as usize + data.len(), 0);
                        d[offset as usize..].copy_from_slice(data);
                    }
                }
                CopyStep::CheckSize => {
                    if let Some(Node::File(_, d)) = self.nodes.get(&beside?) {
                        return Ok(CopyOutcome::Size(d.len() as i64));
                    }
                }
                CopyStep::SetMode(mode) => {
                    let dir = found?;
                    let file = beside?;
                    if let Some(Node::Dir(m)) = self.nodes.get_mut(&dir) {
                        *m = mode;
                    } else if let Some(Node::File(m, _)) = self.nodes.get_mut(&file) {
                        *m = mode;
                    }
                }
                CopyStep::Own(_, _) | CopyStep::OwnLink(_, _) => {}
                CopyStep::Rename => match self.nodes.remove(&beside?) {
                    Some(n) => {
                        self.nodes.insert(found?, n);
                    }
                    None => return Err(ENOENT),
                },
            }
            Ok(CopyOutcome::Done)
        })();
        match result {
            Ok(o) => o,
            Err(e) => CopyOutcome::Failed(Some(e)),
        }
    }

    fn copy(&mut self, req: &CopyFileRequest) -> Result<(), CopyStep> {
        let plan = match do_copy_file(req, BASE) {
            Ok(plan) => plan,
            Err(_) => return Err(CopyStep::RemoveAll),
        };
        let (target, temp) = (parts(&plan.target), parts(&plan.temporary));
        for step in plan.steps {
            let outcome = self.perform(step, &target, &temp, &req.data);
            match judge_copy(step, outcome, req.file_size) {
                CopyVerdict::Next => {}
                CopyVerdict::Wait => return Ok(()),
                CopyVerdict::Abort => return Err(step),
            }
        }
        Ok(())
    }
}

fn request(path: &str, file_mode: u32, data: &[u8], file_size: i64) -> CopyFileRequest {
    CopyFileRequest {
        path: format!("{}/{}", BASE, path),
        file_size,
        file_mode,
        uid: 1000,
        gid: 1000,
        offset: 0,
        data: data.to_vec(),
    }
}

#[test]
fn test_do_copy_file() {
    let mut tree = Tree::new(&["a", "x"]);
    // Create a top-level file
    tree.copy(&request("f", 0o644 | S_IFREG, b"", 0)).unwrap();
    assert_eq!(tree.get("f"), Some(&Node::File(0o644, vec![])));
    // Writing a file onto an existing file replaces it
    tree.copy(&request("f", 0o600 | S_IFREG, b"Hello!", 6))
        .unwrap();
    assert_eq!(tree.get("f"), Some(&Node::File(0o600, b"Hello!".to_vec())));
    // Creating a file preserves its existing parent
    tree.copy(&request("a/b", 0o644 | S_IFREG, b"", 0)).unwrap();
    assert_eq!(tree.get("a"), Some(&Node::Dir(0o755)));
    assert_eq!(tree.get("a/b"), Some(&Node::File(0o644, vec![])));
    // Create a file within an existing directory
    tree.copy(&request("a/c", 0o621 | S_IFREG, b"", 0)).unwrap();
    assert_eq!(tree.get("a"), Some(&Node::Dir(0o755)));
    assert_eq!(tree.get("a/c"), Some(&Node::File(0o621, vec![])));
    // Create a directory
    tree.copy(&request("a/d", 0o755 | S_IFDIR, b"", 0)).unwrap();
    assert_eq!(tree.get("a"), Some(&Node::Dir(0o755)));
    assert_eq!(tree.get("a/d"), Some(&Node::Dir(0o755)));
    // Creating a dir onto an existing file replaces the file
    tree.copy(&request("a/b", 0o755 | S_IFDIR, b"", 0)).unwrap();
    assert_eq!(tree.get("a/b"), Some(&Node::Dir(0o755)));
    // Creating a file onto an existing dir replaces the dir
    tree.copy(&request("a/b", 0o644 | S_IFREG, b"", 0)).unwrap();
    assert_eq!(tree.get("a/b"), Some(&Node::File(0o644, vec![])));
    // Creating a dir onto an existing dir does not replace that dir
    tree.copy(&request("a", 0o751 | S_IFDIR, b"", 0)).unwrap();
    assert_eq!(tree.get("a/b"), Some(&Node::File(0o644, vec![])));
    assert_eq!(tree.get("a"), Some(&Node::Dir(0o751)));
    // Create a symlink
    tree.copy(&request("a/link", 0o755 | S_IFLNK, b"/etc/passwd", 0))
        .unwrap();
    assert_eq!(tree.get("a/link"), Some(&Node::Link(b"/etc/passwd".to_vec())));
    // Create a directory with setgid and sticky bit
    tree.copy(&request("x/y", 0o3770 | S_IFDIR, b"", 0)).unwrap();
    assert_eq!(tree.get("x"), Some(&Node::Dir(0o755)));
    assert_eq!(tree.get("x/y"), Some(&Node::Dir(0o3770)));
    // Chunked upload 1
    tree.copy(&request("x/chunked", 0o644 | S_IFREG, b"Hello ", 11))
        .unwrap();
    assert_eq!(tree.get("x/chunked"), None);
    // Chunked upload 2
    let mut second = request("x/chunked", 0o644 | S_IFREG, b"World", 11);
    second.offset = 6;
    tree.copy(&second).unwrap();
    assert_eq!(
        tree.get("x/chunked"),
        Some(&Node::File(0o644, b"Hello World".to_vec()))
    );
    // An intermediate directory is a symlink
    let through = request(
        "a/link/this-could-just-be-shadow-but-I-am-not-risking-it",
        0o755 | S_IFLNK,
        b"root:password:19000:0:99999:7:::\n",
        33,
    );
    assert!(tree.copy(&through).is_err());
    assert_eq!(tree.get("a/link"), Some(&Node::Link(b"/etc/passwd".to_vec())));
    // Creating a symlink onto an existing symlink replaces the symlink
    tree.copy(&request("a/link", 0o755 | S_IFLNK, b"/etc", 0))
        .unwrap();
    assert_eq!(tree.get("a"), Some(&Node::Dir(0o751)));
    assert_eq!(tree.get("a/link"), Some(&Node::Link(b"/etc".to_vec())));
    // Creating a file at an existing symlink replaces the link
    tree.copy(&request("a/link", 0o600 | S_IFREG, b"Hello!", 6))
        .unwrap();
    assert_eq!(
        tree.get("a/link"),
        Some(&Node::File(0o600, b"Hello!".to_vec()))
    );
    // Writing outside the shared directory is rejected
    let mut outside = request("x", 0o600 | S_IFREG, b"", 0);
    outside.path = "/top/not-shared".to_string();
    assert!(do_copy_file(&outside, BASE).is_err());
    // Traversal outside shared directory is rejected
    let up = request("../not-shared", 0o600 | S_IFREG, b"", 0);
    assert!(do_copy_file(&up, BASE).is_err());
    assert!(tree.copy(&up).is_err());
}

#[test]
fn copies_stay_beneath_the_directory() {
    for kind in [S_IFREG, S_IFDIR, S_IFLNK] {
        for (path, expected) in [
            ("../not-shared", Some(CopyRefusal::StepsOut)),
            ("a/../../not-shared", Some(CopyRefusal::StepsOut)),
            ("../shared/f", Some(CopyRefusal::StepsOut)),
            ("a/b/../../..", Some(CopyRefusal::StepsOut)),
            ("", Some(CopyRefusal::NoName)),
            ("a/..", Some(CopyRefusal::NoName)),
            ("a/../f", None),
            ("a/./...", None),
        ] {
            let r = do_copy_file(&request(path, kind | 0o644, b"", 0), BASE);
            assert_eq!(r.err(), expected, "{}", path);
        }
        for path in ["/top/not-shared", "/top/sharedx/f", "top/shared/f"] {
            let mut req = request("f", kind | 0o644, b"", 0);
            req.path = path.to_string();
            assert_eq!(
                do_copy_file(&req, BASE).err(),
                Some(CopyRefusal::NotBeneath)
            );
        }
    }
    // What lies within is found by the way that it takes.
    let mut tree = Tree::new(&["a"]);
    tree.copy(&request("a/../f", 0o644 | S_IFREG, b"x", 1)).unwrap();
    assert_eq!(tree.get("f"), Some(&Node::File(0o644, b"x".to_vec())));
}

#[test]
fn copies_need_existing_parents() {
    for kind in [S_IFREG, S_IFDIR, S_IFLNK] {
        let mut tree = Tree::new(&[]);
        tree.there = false;
        // A copy makes not even the shared directory.
        assert!(tree
            .copy(&request("target", kind | 0o755, b"destination", 11))
            .is_err());
        tree.there = true;
        assert!(tree
            .copy(&request(
                "missing/nested/target",
                kind | 0o755,
                b"destination",
                11
            ))
            .is_err());
        assert!(tree.nodes.is_empty());
    }
}

#[test]
fn a_temporary_stands_beside_its_target() {
    for (path, temporary) in [
        ("d/f", "d/f.tmp"),
        ("d/f.tar.gz", "d/f.tar.tmp"),
        ("d/.hidden", "d/.hidden.tmp"),
    ] {
        let plan = do_copy_file(&request(path, 0o644 | S_IFREG, b"", 0), BASE).unwrap();
        assert_eq!(to_path(&plan.target), path);
        assert_eq!(to_path(&plan.temporary), temporary);
    }
}

#[test]
fn only_some_failures_are_harmless() {
    let failed = |e| CopyOutcome::Failed(Some(e));
    for (step, errno, verdict) in [
        (CopyStep::RemoveFile, ENOENT, CopyVerdict::Next),
        (CopyStep::RemoveFile, EISDIR, CopyVerdict::Next),
        (CopyStep::RemoveFile, EEXIST, CopyVerdict::Abort),
        (CopyStep::MakeDirectory(0), EEXIST, CopyVerdict::Next),
        (CopyStep::MakeDirectory(0), ENOENT, CopyVerdict::Abort),
        (CopyStep::RemoveAll, ENOENT, CopyVerdict::Next),
        (CopyStep::Rename, ENOENT, CopyVerdict::Abort),
    ] {
        assert_eq!(judge_copy(step, failed(errno), 0), verdict);
    }
    assert_eq!(
        judge_copy(CopyStep::RemoveAll, CopyOutcome::Failed(None), 0),
        CopyVerdict::Abort
    );
    assert_eq!(
        judge_copy(CopyStep::CheckSize, CopyOutcome::Size(3), 4),
        CopyVerdict::Wait
    );
    assert_eq!(
        judge_copy(CopyStep::CheckSize, CopyOutcome::Size(4), 4),
        CopyVerdict::Next
    );
}

#[test]
fn owners_are_taken_as_the_kernel_takes_them() {
    let mut req = request("f", 0o644 | S_IFREG, b"", 0);
    req.uid = -1;
    let plan = do_copy_file(&req, BASE).unwrap();
    assert!(plan.steps.contains(&CopyStep::Own(u32::MAX, 1000)));
}
