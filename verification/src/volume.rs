//! Volumes that the runtime hands to a guest directly.
use vstd::prelude::*;
use vstd::utf8::{encode_utf8, encode_utf8_decode_utf8};

use crate::path::{components, is_named, join, joined};
use crate::strmap::StrMap;
use crate::text::{chars_of, split_on, starts_with, str_eq, views, Sep};

verus! {

/// The prefix of types of special volumes.
pub const KATA_VOLUME_TYPE_PREFIX: &'static str = "kata:";

/// The prefix of types of volumes that the guest mounts.
pub const KATA_GUEST_MOUNT_PREFIX: &'static str = "kata:guest-mount:";

/// The tag of the volume that the guest mounts before the agent starts.
pub const KATA_SHAREDFS_GUEST_PREMOUNT_TAG: &'static str = "kataShared";

/// The type of volumes in the memory of the guest.
pub const KATA_EPHEMERAL_VOLUME_TYPE: &'static str = "ephemeral";

/// The type of volumes on a disk of the guest.
pub const KATA_K8S_LOCAL_STORAGE_TYPE: &'static str = "local";

/// The file that describes a volume.
pub const KATA_MOUNT_INFO_FILE_NAME: &'static str = "mountInfo.json";

/// The option with the group of a volume.
pub const KATA_MOUNT_OPTION_FS_GID: &'static str = "fsgid";

/// The directory with the descriptions of volumes.
pub const DEFAULT_KATA_DIRECT_VOLUME_ROOT_PATH: &'static str =
    "/run/kata-containers/shared/direct-volumes";

/// The option that asks for a filesystem on a new volume.
pub const KATA_BLOCK_VOLUME_CREATE_FS: &'static str = "create_filesystem";

/// The directory of bind mounts of a sandbox.
pub const SANDBOX_BIND_MOUNTS_DIR: &'static str = "sandbox-mounts";

/// The mark of bind mounts that are read-only.
pub const SANDBOX_BIND_MOUNTS_RO: &'static str = ":ro";

/// The prefix of virtual volumes.
pub const KATA_VIRTUAL_VOLUME_PREFIX: &'static str = "io.katacontainers.volume=";

/// The directory of a sandbox in the guest.
pub const DEFAULT_KATA_GUEST_SANDBOX_DIR: &'static str = "/run/kata-containers/sandbox";

/// The name of the directory for shared memory.
pub const SHM_DIR: &'static str = "shm";

/// The path of shared memory.
pub const SHM_DEVICE: &'static str = "/dev/shm";

/// The directory with the descriptions of volumes.
pub fn kata_direct_volume_root_path() -> (r: String)
    ensures
        r@ == DEFAULT_KATA_DIRECT_VOLUME_ROOT_PATH@,
{
    DEFAULT_KATA_DIRECT_VOLUME_ROOT_PATH.to_owned()
}

/// The directory of a sandbox in the guest.
pub fn kata_guest_sandbox_dir() -> (r: String)
    ensures
        r@ == DEFAULT_KATA_GUEST_SANDBOX_DIR@,
{
    DEFAULT_KATA_GUEST_SANDBOX_DIR.to_owned()
}

/// A mount.
#[derive(Debug)]
pub struct Mount {
    /// The device, or the file or directory of a bind mount.
    pub source: String,
    /// The path in the container.
    pub destination: String,
    /// The type of the filesystem.
    pub fs_type: String,
    pub options: Vec<String>,
    /// The id of the block device, where it is assigned directly.
    pub device_id: Option<String>,
    /// The path on the host through which the source is shared.
    pub host_shared_fs_path: Option<String>,
    pub read_only: bool,
}

/// The description of a volume that the guest mounts as a filesystem.
#[derive(Debug)]
pub struct DirectVolumeMountInfo {
    /// The type of the volume.
    pub volume_type: String,
    /// The device behind the volume.
    pub device: String,
    /// The type of the filesystem.
    pub fs_type: String,
    /// More that the agent is told.
    pub metadata: StrMap<String>,
    pub options: Vec<String>,
}

/// A digit of the URL-safe alphabet of base64.
pub open spec fn digit64(n: int) -> char {
    if n < 26 {
        (65 + n) as char
    } else if n < 52 {
        (71 + n) as char
    } else if n < 62 {
        (n - 4) as char
    } else if n == 62 {
        '-'
    } else {
        '_'
    }
}

/// Bytes in base64 with the URL-safe alphabet and padding: three bytes in four digits.
pub open spec fn base64_url(bytes: Seq<u8>) -> Seq<char>
    decreases bytes.len(),
{
    let a = bytes[0] as int;
    let b = bytes[1] as int;
    let c = bytes[2] as int;
    if bytes.len() == 0 {
        Seq::empty()
    } else if bytes.len() == 1 {
        seq![digit64(a / 4), digit64(a % 4 * 16), '=', '=']
    } else if bytes.len() == 2 {
        seq![
            digit64(a / 4),
            digit64(a % 4 * 16 + b / 16),
            digit64(b % 16 * 4),
            '=',
        ]
    } else {
        seq![
            digit64(a / 4),
            digit64(a % 4 * 16 + b / 16),
            digit64(b % 16 * 4 + c / 64),
            digit64(c % 64),
        ] + base64_url(bytes.skip(3))
    }
}

/// `Engine::encode` of the engine `URL_SAFE` of `base64` writes the bytes of a text in base64
/// with the URL-safe alphabet and padding.
#[verifier::external_body]
fn encode_url_safe(text: &str) -> (r: String)
    ensures
        r@ == base64_url(encode_utf8(text@)),
{
    base64::Engine::encode(&base64::engine::general_purpose::URL_SAFE, text.as_bytes())
}

/// Where the description of a volume stands.
#[derive(Debug)]
pub struct VolumeDir {
    /// The directory beneath which it must stay.
    pub root: String,
    /// The name of its directory there.
    pub name: String,
}

/// A volume without a path.
#[derive(Clone, Copy, Debug, PartialEq, Eq, Structural)]
pub struct NoVolume;

/// The name of the directory of a volume.
pub open spec fn volume_name(volume_path: Seq<char>) -> Seq<char> {
    base64_url(encode_utf8(volume_path))
}

/// Tells where the description of a volume stands beneath a directory: the path of the
/// volume is encoded into a single name.
pub fn join_path(prefix: &str, volume_path: &str) -> (r: Result<VolumeDir, NoVolume>)
    ensures
        match r {
            Ok(d) => volume_path@.len() > 0 && d.root@ == prefix@ && d.name@ == volume_name(
                volume_path@,
            ),
            Err(_) => volume_path@.len() == 0,
        },
{
    if volume_path.is_empty() {
        return Err(NoVolume);
    }
    let name = encode_url_safe(volume_path);
    Ok(VolumeDir { root: prefix.to_owned(), name })
}

/// The file that describes a volume, once its directory was resolved.
pub fn mount_info_file(dir: &str) -> (r: String)
    ensures
        r@ == joined(dir@, KATA_MOUNT_INFO_FILE_NAME@),
{
    join(dir, KATA_MOUNT_INFO_FILE_NAME)
}

/// The file that describes a volume beneath a root.
pub open spec fn volume_file(root: Seq<char>, volume_path: Seq<char>) -> Seq<char> {
    joined(joined(root, volume_name(volume_path)), KATA_MOUNT_INFO_FILE_NAME@)
}

/// Gives the file that describes a volume beneath a root. A volume without a path has none.
pub fn volume_info_file(root: &str, volume_path: &str) -> (r: Result<String, NoVolume>)
    ensures
        match r {
            Ok(f) => volume_path@.len() > 0 && f@ == volume_file(root@, volume_path@),
            Err(_) => volume_path@.len() == 0,
        },
{
    match join_path(root, volume_path) {
        Ok(d) => {
            let dir = join(d.root.as_str(), d.name.as_str());
            Ok(mount_info_file(dir.as_str()))
        },
        Err(e) => Err(e),
    }
}

/// Tells whether a volume is mounted: whether the file that describes it is among the files
/// that exist, whatever the file holds.
pub fn is_volume_mounted(volume_path: &str, files: &Vec<String>) -> (r: bool)
    ensures
        r == (volume_path@.len() > 0 && views(files@).contains(
            volume_file(DEFAULT_KATA_DIRECT_VOLUME_ROOT_PATH@, volume_path@),
        )),
{
    let root = kata_direct_volume_root_path();
    let file = match volume_info_file(root.as_str(), volume_path) {
        Ok(f) => f,
        Err(_) => {
            return false;
        },
    };
    let mut i: usize = 0;
    while i < files.len()
        invariant
            i <= files.len(),
            volume_path@.len() > 0,
            file@ == volume_file(DEFAULT_KATA_DIRECT_VOLUME_ROOT_PATH@, volume_path@),
            forall|k: int| 0 <= k < i ==> (#[trigger] files@[k])@ != file@,
        decreases files.len() - i,
    {
        if str_eq(files[i].as_str(), file.as_str()) {
            proof {
                assert(views(files@)[i as int] == file@);
            }
            return true;
        }
        i += 1;
    }
    proof {
        if views(files@).contains(file@) {
            let k = views(files@).index_of(file@);
            assert(files@[k]@ == file@);
        }
    }
    false
}

/// Whether a type has a prefix and something behind it.
pub open spec fn goes_on_from(ty: Seq<char>, prefix: Seq<char>) -> bool {
    ty.len() > prefix.len() && prefix.is_prefix_of(ty)
}

fn has_prefix_and_more(ty: &str, prefix: &str) -> (r: bool)
    ensures
        r == goes_on_from(ty@, prefix@),
{
    let t = chars_of(ty);
    let p = chars_of(prefix);
    t.len() > p.len() && starts_with(t.as_slice(), p.as_slice())
}

/// Tells whether a type marks a special volume.
pub fn is_kata_special_volume(ty: &str) -> (r: bool)
    ensures
        r == goes_on_from(ty@, KATA_VOLUME_TYPE_PREFIX@),
{
    has_prefix_and_more(ty, KATA_VOLUME_TYPE_PREFIX)
}

/// Tells whether a type marks a volume that the guest mounts.
pub fn is_kata_guest_mount_volume(ty: &str) -> (r: bool)
    ensures
        r == goes_on_from(ty@, KATA_GUEST_MOUNT_PREFIX@),
{
    has_prefix_and_more(ty, KATA_GUEST_MOUNT_PREFIX)
}

/// Tells whether a type marks a volume in the memory of the guest.
pub fn is_kata_ephemeral_volume(ty: &str) -> (r: bool)
    ensures
        r == (ty@ == KATA_EPHEMERAL_VOLUME_TYPE@),
{
    str_eq(ty, KATA_EPHEMERAL_VOLUME_TYPE)
}

/// A volume that the guest mounts is a special volume.
pub proof fn law_guest_mounts_are_special(ty: Seq<char>)
    requires
        goes_on_from(ty, KATA_GUEST_MOUNT_PREFIX@),
    ensures
        goes_on_from(ty, KATA_VOLUME_TYPE_PREFIX@),
{
    reveal_strlit("kata:");
    reveal_strlit("kata:guest-mount:");
    let long = KATA_GUEST_MOUNT_PREFIX@;
    let short = KATA_VOLUME_TYPE_PREFIX@;
    assert forall|i: int| 0 <= i < short.len() implies ty.subrange(0, short.len() as int)[i]
        == short[i] by {
        assert(ty.subrange(0, long.len() as int)[i] == long[i]);
    }
    assert(ty.subrange(0, short.len() as int) =~= short);
}

proof fn lemma_digit_range(n: int)
    requires
        0 <= n < 64,
    ensures
        digit64(n) != '=',
        digit64(n) != '/',
        digit64(n) != '.',
{
}

proof fn lemma_digits_differ(m: int, n: int)
    requires
        0 <= m < 64,
        0 <= n < 64,
        digit64(m) == digit64(n),
    ensures
        m == n,
{
}

proof fn lemma_encoded_chars(bytes: Seq<u8>)
    ensures
        forall|i: int| 0 <= i < base64_url(bytes).len() ==> #[trigger] base64_url(bytes)[i] != '/',
        bytes.len() > 0 ==> base64_url(bytes).len() >= 4 && base64_url(bytes)[0] != '.',
    decreases bytes.len(),
{
    if bytes.len() > 0 {
        let a = bytes[0] as int;
        lemma_digit_range(a / 4);
        if bytes.len() == 1 {
            lemma_digit_range(a % 4 * 16);
        } else {
            let b = bytes[1] as int;
            lemma_digit_range(a % 4 * 16 + b / 16);
            if bytes.len() == 2 {
                lemma_digit_range(b % 16 * 4);
            } else {
                let c = bytes[2] as int;
                lemma_digit_range(b % 16 * 4 + c / 64);
                lemma_digit_range(c % 64);
                lemma_encoded_chars(bytes.skip(3));
                let tail = base64_url(bytes.skip(3));
                let out = base64_url(bytes);
                assert forall|i: int| 0 <= i < out.len() implies #[trigger] out[i] != '/' by {
                    if i >= 4 {
                        assert(out[i] == tail[i - 4]);
                    }
                }
            }
        }
    }
}

proof fn lemma_encoded_differ(x: Seq<u8>, y: Seq<u8>)
    requires
        base64_url(x) == base64_url(y),
    ensures
        x == y,
    decreases x.len(),
{
    let e = base64_url(x);
    let f = base64_url(y);
    if x.len() == 0 {
        if y.len() > 0 {
            lemma_encoded_chars(y);
        }
        assert(x =~= y);
    } else if y.len() == 0 {
        lemma_encoded_chars(x);
    } else {
        let a = x[0] as int;
        let p = y[0] as int;
        let b: int = if x.len() > 1 {
            x[1] as int
        } else {
            0
        };
        let q: int = if y.len() > 1 {
            y[1] as int
        } else {
            0
        };
        let c: int = if x.len() > 2 {
            x[2] as int
        } else {
            0
        };
        let r: int = if y.len() > 2 {
            y[2] as int
        } else {
            0
        };
        assert(e[0] == f[0] && e[1] == f[1] && e[2] == f[2] && e[3] == f[3]);
        lemma_digit_range(b % 16 * 4);
        lemma_digit_range(q % 16 * 4);
        lemma_digit_range(b % 16 * 4 + c / 64);
        lemma_digit_range(q % 16 * 4 + r / 64);
        lemma_digit_range(c % 64);
        lemma_digit_range(r % 64);
        assert(x.len() == 1 <==> y.len() == 1);
        assert(x.len() == 2 <==> y.len() == 2);
        lemma_digits_differ(a / 4, p / 4);
        lemma_digits_differ(a % 4 * 16 + b / 16, p % 4 * 16 + q / 16);
        assert(a == p);
        if x.len() == 1 {
            assert(x =~= y);
        } else {
            lemma_digits_differ(b % 16 * 4 + c / 64, q % 16 * 4 + r / 64);
            assert(b == q);
            if x.len() == 2 {
                assert(x =~= y);
            } else {
                lemma_digits_differ(c % 64, r % 64);
                assert(c == r);
                assert(base64_url(x.skip(3)) =~= e.skip(4));
                assert(base64_url(y.skip(3)) =~= f.skip(4));
                lemma_encoded_differ(x.skip(3), y.skip(3));
                assert forall|i: int| 0 <= i < x.len() implies x[i] == y[i] by {
                    if i >= 3 {
                        assert(x.skip(3)[i - 3] == y.skip(3)[i - 3]);
                    }
                }
                assert(x.len() == x.skip(3).len() + 3);
                assert(x =~= y);
            }
        }
    }
}

/// Different volumes are described in different directories.
pub proof fn law_volumes_do_not_share_directories(a: Seq<char>, b: Seq<char>)
    requires
        volume_name(a) == volume_name(b),
    ensures
        a == b,
{
    lemma_encoded_differ(encode_utf8(a), encode_utf8(b));
    encode_utf8_decode_utf8(a);
    encode_utf8_decode_utf8(b);
}

proof fn lemma_split_last(a: Seq<char>, name: Seq<char>)
    requires
        forall|i: int| 0 <= i < name.len() ==> #[trigger] name[i] != '/',
    ensures
        ({
            let sep = Sep::Char('/');
            let pieces = split_on(a, sep);
            &&& pieces.len() >= 1
            &&& split_on(a + name, sep) == pieces.drop_last().push(pieces.last() + name)
        }),
    decreases name.len(),
{
    let sep = Sep::Char('/');
    let pieces = split_on(a, sep);
    crate::text::lemma_split_nonempty(a, sep);
    if name.len() == 0 {
        assert(a + name =~= a);
        assert(pieces.last() + name =~= pieces.last());
        assert(pieces.drop_last().push(pieces.last()) =~= pieces);
    } else {
        let front = name.drop_last();
        lemma_split_last(a, front);
        let whole = a + name;
        assert(whole.drop_last() =~= a + front);
        assert(whole.last() == name[name.len() - 1]);
        let before = split_on(a + front, sep);
        assert(before.last() == pieces.last() + front);
        assert((pieces.last() + front).push(name.last()) =~= pieces.last() + name);
        assert(before.drop_last() =~= pieces.drop_last());
    }
}

/// The description of a volume stands directly in the directory with the descriptions,
/// whatever the path of the volume: its components are those of the directory and the
/// name.
pub proof fn law_volumes_stay_beneath_the_root(prefix: Seq<char>, volume_path: Seq<char>)
    requires
        volume_path.len() > 0,
    ensures
        components(joined(prefix, volume_name(volume_path))) == components(prefix).push(
            volume_name(volume_path),
        ),
{
    let bytes = encode_utf8(volume_path);
    let name = volume_name(volume_path);
    let sep = Sep::Char('/');
    let named = |c: Seq<char>| is_named(c);
    assert(bytes.len() > 0) by {
        if bytes.len() == 0 {
            encode_utf8_decode_utf8(volume_path);
            assert(bytes =~= encode_utf8(Seq::<char>::empty()));
            encode_utf8_decode_utf8(Seq::<char>::empty());
        }
    }
    lemma_encoded_chars(bytes);
    assert(name[0] != '/');
    assert(name != seq!['.']);
    let base = if prefix.len() > 0 && prefix.last() != '/' {
        prefix.push('/')
    } else {
        prefix
    };
    assert(joined(prefix, name) == base + name);
    lemma_split_last(base, name);
    let pieces = split_on(prefix, sep);
    crate::text::lemma_split_nonempty(prefix, sep);
    let all = split_on(base + name, sep);
    let below = split_on(base, sep);
    reveal(Seq::filter);
    assert(below.last() =~= Seq::<char>::empty()) by {
        if prefix.len() > 0 && prefix.last() != '/' {
            assert(base.drop_last() =~= prefix);
        }
    }
    assert(below.last() + name =~= name);
    assert(all =~= below.drop_last().push(name));
    assert(all.drop_last() =~= below.drop_last());
    if prefix.len() > 0 && prefix.last() != '/' {
        assert(base.drop_last() =~= prefix);
        assert(below.drop_last() =~= pieces);
    } else {
        assert(pieces.last().len() == 0);
        assert(pieces.filter(named) == pieces.drop_last().filter(named));
    }
    assert(all.filter(named) == below.drop_last().filter(named).push(name));
    assert(below.drop_last().filter(named) == pieces.filter(named));
    assert(pieces[0] == seq!['.'] <==> all[0] == seq!['.']) by {
        if prefix.len() == 0 {
            assert(pieces[0].len() == 0);
        } else if pieces.len() == 1 && prefix.last() == '/' {
            lemma_two_pieces(prefix);
        }
    }
    assert(components(base + name) =~= components(prefix).push(name));
}

proof fn lemma_two_pieces(p: Seq<char>)
    requires
        p.len() > 0,
        p.last() == '/',
    ensures
        split_on(p, Sep::Char('/')).len() >= 2,
{
    crate::text::lemma_split_nonempty(p.drop_last(), Sep::Char('/'));
}

} // verus!
