//! Block storage of a container.
use vstd::prelude::*;

use crate::text::{str_eq, views};
use crate::volume::KATA_BLOCK_VOLUME_CREATE_FS;

verus! {

/// The program that makes filesystems.
pub const MKFS_EXT4: &'static str = "mkfs.ext4";

/// A storage that the host asks for.
#[derive(Debug)]
pub struct Storage {
    pub source: String,
    pub fstype: String,
    pub driver_options: Vec<String>,
}

/// Whether a storage is to get a filesystem.
pub open spec fn wants_filesystem(options: Seq<String>) -> bool {
    exists|i: int|
        0 <= i < options.len() && (#[trigger] options[i])@ == KATA_BLOCK_VOLUME_CREATE_FS@
}

/// Tells whether a storage is to get a filesystem.
pub fn should_create_block_filesystem(storage: &Storage) -> (r: bool)
    ensures
        r == wants_filesystem(storage.driver_options@),
{
    let mut i: usize = 0;
    while i < storage.driver_options.len()
        invariant
            i <= storage.driver_options.len(),
            forall|k: int|
                0 <= k < i ==> (#[trigger] storage.driver_options@[k])@
                    != KATA_BLOCK_VOLUME_CREATE_FS@,
        decreases storage.driver_options.len() - i,
    {
        if str_eq(storage.driver_options[i].as_str(), KATA_BLOCK_VOLUME_CREATE_FS) {
            return true;
        }
        i += 1;
    }
    false
}

/// A filesystem that cannot be made.
#[derive(Debug)]
pub struct UnsupportedFilesystem {
    pub fstype: String,
}

impl UnsupportedFilesystem {
    /// The text of the error.
    pub fn message(&self) -> (r: String)
        ensures
            r@ == "creating filesystem "@ + self.fstype@ + " for block storage is unsupported"@,
    {
        let mut t = "creating filesystem ".to_owned();
        t.append(self.fstype.as_str());
        t.append(" for block storage is unsupported");
        t
    }
}

/// The arguments with which a filesystem is made on a source.
pub open spec fn mkfs_arguments(source: Seq<char>) -> Seq<Seq<char>> {
    seq![
        "-F"@,
        "-O"@,
        "^has_journal"@,
        "-m"@,
        "0"@,
        "-i"@,
        "163840"@,
        "-I"@,
        "128"@,
        source,
    ]
}

/// Lists the arguments with which a filesystem is made on a source.
pub fn ensure_ext4_filesystem(source: &str) -> (r: Vec<String>)
    ensures
        views(r@) == mkfs_arguments(source@),
{
    let mut v: Vec<String> = Vec::new();
    v.push("-F".to_owned());
    v.push("-O".to_owned());
    v.push("^has_journal".to_owned());
    v.push("-m".to_owned());
    v.push("0".to_owned());
    v.push("-i".to_owned());
    v.push("163840".to_owned());
    v.push("-I".to_owned());
    v.push("128".to_owned());
    v.push(source.to_owned());
    proof {
        assert(views(v@) =~= mkfs_arguments(source@));
    }
    v
}

/// Plans the filesystem of a storage: the arguments of the program that makes it, where
/// one is wanted. Only one type can be made.
pub fn handle_block_storage(storage: &Storage) -> (r: Result<
    Option<Vec<String>>,
    UnsupportedFilesystem,
>)
    ensures
        if !wants_filesystem(storage.driver_options@) {
            r matches Ok(None)
        } else if storage.fstype@ == "ext4"@ {
            r matches Ok(Some(v)) && views(v@) == mkfs_arguments(storage.source@)
        } else {
            r matches Err(e) && e.fstype@ == storage.fstype@
        },
{
    if !should_create_block_filesystem(storage) {
        return Ok(None);
    }
    match ensure_block_filesystem(storage) {
        Ok(v) => Ok(Some(v)),
        Err(e) => Err(e),
    }
}

/// Plans the making of the filesystem of a storage. Only one type can be made.
pub fn ensure_block_filesystem(storage: &Storage) -> (r: Result<
    Vec<String>,
    UnsupportedFilesystem,
>)
    ensures
        if storage.fstype@ == "ext4"@ {
            r matches Ok(v) && views(v@) == mkfs_arguments(storage.source@)
        } else {
            r matches Err(e) && e.fstype@ == storage.fstype@
        },
{
    if str_eq(storage.fstype.as_str(), "ext4") {
        Ok(ensure_ext4_filesystem(storage.source.as_str()))
    } else {
        Err(UnsupportedFilesystem { fstype: storage.fstype.clone() })
    }
}

} // verus!
