//! Annotations of a sandbox: what the container manager says of its size, and which
//! options they may set.
use vstd::prelude::*;

use crate::hypervisor::{
    over_limit, Hypervisor, HypervisorError, HypervisorFault, HypervisorPlugins, TomlConfig, Vcpus,
    MAX_FIRECRACKER_VCPUS, MIN_FIRECRACKER_MEMORY_SIZE_MB, VCPU_INFINITY_BITS, VCPU_LIMIT_BITS,
};
use crate::strmap::StrMap;
use crate::text::{
    all_digits, chars_of, decimal, digits_value, int_of, parse_i64, parse_u64, push_u64,
    starts_with, str_eq, string_of, trim, trimmed, uint_of,
};

verus! {

/// The prefix of annotations that set options.
pub const KATA_ANNO_CFG_PREFIX: &'static str = "io.katacontainers.config.";

/// The annotation with the path of the bundle.
pub const BUNDLE_PATH_KEY: &'static str = "io.katacontainers.pkg.oci.bundle_path";

/// The annotation with the type of the container.
pub const CONTAINER_TYPE_KEY: &'static str = "io.katacontainers.pkg.oci.container_type";

/// The annotation that lets the agent trace.
pub const KATA_ANNO_CFG_AGENT_TRACE: &'static str = "io.katacontainers.config.agent.enable_tracing";

/// The annotation that lets the runtime trace.
pub const KATA_ANNO_CFG_RUNTIME_TRACE: &'static str =
    "io.katacontainers.config.runtime.enable_tracing";

/// The annotation with the number of independent threads for input and output.
pub const KATA_ANNO_CFG_HYPERVISOR_INDEP_IO_THREADS: &'static str =
    "io.katacontainers.config.hypervisor.indep_iothreads";

/// The name of a hash algorithm.
pub const SHA512: &'static str = "sha512";

/// The annotation with the path of the guest kernel.
pub const KATA_ANNO_CFG_HYPERVISOR_KERNEL_PATH: &'static str =
    "io.katacontainers.config.hypervisor.kernel";

/// The annotation with the number of virtual CPUs.
pub const KATA_ANNO_CFG_HYPERVISOR_DEFAULT_VCPUS: &'static str =
    "io.katacontainers.config.hypervisor.default_vcpus";

/// The annotation with the memory.
pub const KATA_ANNO_CFG_HYPERVISOR_DEFAULT_MEMORY: &'static str =
    "io.katacontainers.config.hypervisor.default_memory";

/// The annotation with data for the start of a confidential guest.
pub const KATA_ANNO_CFG_HYPERVISOR_INIT_DATA: &'static str =
    "io.katacontainers.config.hypervisor.cc_init_data";

/// The annotation with the CPU quota of the sandbox.
pub const SANDBOX_CPU_QUOTA_KEY: &'static str = "io.kubernetes.cri.sandbox-cpu-quota";

/// The annotation with the CPU period of the sandbox.
pub const SANDBOX_CPU_PERIOD_KEY: &'static str = "io.kubernetes.cri.sandbox-cpu-period";

/// The annotation with the memory of the sandbox.
pub const SANDBOX_MEM_KEY: &'static str = "io.kubernetes.cri.sandbox-memory";

/// A value that an annotation can hold.
pub trait AnnotationValue: Sized {
    /// The value that a text writes.
    spec fn written(text: Seq<char>) -> Option<Self>;

    /// Reads a value.
    fn read(text: &[char]) -> (r: Option<Self>)
        ensures
            r == Self::written(text@),
    ;
}

impl AnnotationValue for i64 {
    open spec fn written(text: Seq<char>) -> Option<i64> {
        match int_of(text, i64::MIN as int, i64::MAX as int) {
            Some(n) => Some(n as i64),
            None => None,
        }
    }

    fn read(text: &[char]) -> (r: Option<i64>) {
        parse_i64(text)
    }
}

impl AnnotationValue for u64 {
    open spec fn written(text: Seq<char>) -> Option<u64> {
        match uint_of(text, 10, u64::MAX as nat) {
            Some(n) => Some(n as u64),
            None => None,
        }
    }

    fn read(text: &[char]) -> (r: Option<u64>) {
        parse_u64(text, 10)
    }
}

impl AnnotationValue for bool {
    open spec fn written(text: Seq<char>) -> Option<bool> {
        if text == "true"@ {
            Some(true)
        } else if text == "false"@ {
            Some(false)
        } else {
            None
        }
    }

    fn read(text: &[char]) -> (r: Option<bool>) {
        let s = string_of(text);
        if str_eq(s.as_str(), "true") {
            Some(true)
        } else if str_eq(s.as_str(), "false") {
            Some(false)
        } else {
            None
        }
    }
}

/// An annotation whose value is not of the type that was asked for.
#[derive(Clone, Copy, Debug, PartialEq, Eq, Structural)]
pub struct NotOfType;

/// The annotations of a sandbox.
#[derive(Debug)]
pub struct Annotation {
    pub annotations: StrMap<String>,
}

impl View for Annotation {
    type V = Map<Seq<char>, String>;

    open spec fn view(&self) -> Map<Seq<char>, String> {
        self.annotations@
    }
}

/// The value of an annotation without the white space around it.
pub open spec fn value_of(annotations: Map<Seq<char>, String>, key: Seq<char>) -> Option<Seq<char>> {
    if annotations.contains_key(key) {
        Some(trimmed(annotations[key]@))
    } else {
        None
    }
}

/// A number that an annotation writes, or nothing where it is absent or writes none.
pub open spec fn number_of<T: AnnotationValue>(
    annotations: Map<Seq<char>, String>,
    key: Seq<char>,
) -> Option<T> {
    match value_of(annotations, key) {
        Some(text) => T::written(text),
        None => None,
    }
}

impl Annotation {
    /// The annotations of a map.
    pub fn new(annotations: StrMap<String>) -> (r: Annotation)
        ensures
            r.annotations == annotations,
    {
        Annotation { annotations }
    }

    /// The value of an annotation, where it is of the type that is asked for.
    pub fn get_value<T: AnnotationValue>(&self, key: &str) -> (r: Result<Option<T>, NotOfType>)
        ensures
            match value_of(self@, key@) {
                None => r == Ok::<Option<T>, NotOfType>(None),
                Some(text) => match T::written(text) {
                    Some(v) => r == Ok::<Option<T>, NotOfType>(Some(v)),
                    None => r is Err,
                },
            },
    {
        match self.annotations.get(key) {
            None => Ok(None),
            Some(s) => {
                let c = chars_of(s.as_str());
                let t = trim(c.as_slice());
                match T::read(t.as_slice()) {
                    Some(v) => Ok(Some(v)),
                    None => Err(NotOfType),
                }
            },
        }
    }

    /// The value of an annotation without the white space around it.
    pub fn get(&self, key: &str) -> (r: Option<String>)
        ensures
            match r {
                Some(s) => value_of(self@, key@) == Some(s@),
                None => value_of(self@, key@) is None,
            },
    {
        match self.annotations.get(key) {
            None => None,
            Some(s) => {
                let c = chars_of(s.as_str());
                let t = trim(c.as_slice());
                Some(string_of(t.as_slice()))
            },
        }
    }

    /// The CPU quota of the sandbox, and 0 where none is given.
    pub fn get_sandbox_cpu_quota(&self) -> (r: i64)
        ensures
            r == match number_of::<i64>(self@, SANDBOX_CPU_QUOTA_KEY@) {
                Some(n) => n,
                None => 0,
            },
    {
        match self.get_value::<i64>(SANDBOX_CPU_QUOTA_KEY) {
            Ok(Some(n)) => n,
            _ => 0,
        }
    }

    /// The CPU period of the sandbox, and 0 where none is given.
    pub fn get_sandbox_cpu_period(&self) -> (r: u64)
        ensures
            r == match number_of::<u64>(self@, SANDBOX_CPU_PERIOD_KEY@) {
                Some(n) => n,
                None => 0,
            },
    {
        match self.get_value::<u64>(SANDBOX_CPU_PERIOD_KEY) {
            Ok(Some(n)) => n,
            _ => 0,
        }
    }

    /// The memory of the sandbox, and 0 where none is given.
    pub fn get_sandbox_mem(&self) -> (r: i64)
        ensures
            r == match number_of::<i64>(self@, SANDBOX_MEM_KEY@) {
                Some(n) => n,
                None => 0,
            },
    {
        match self.get_value::<i64>(SANDBOX_MEM_KEY) {
            Ok(Some(n)) => n,
            _ => 0,
        }
    }

    /// The text of the resources of a pod, which is looked up under a key and, where that
    /// is absent, under the key that it had before.
    pub fn get_crio_pod_linux_resources(&self, key: &str, deprecated: &str) -> (r: Option<String>)
        ensures
            ({
                let text = match value_of(self@, key@) {
                    Some(t) => Some(t),
                    None => value_of(self@, deprecated@),
                };
                match r {
                    Some(s) => text == Some(s@),
                    None => text is None,
                }
            }),
    {
        match self.get(key) {
            Some(s) => Some(s),
            None => self.get(deprecated),
        }
    }
}

/// Whether an option may be set by an annotation.
pub open spec fn is_supported(key: Seq<char>) -> bool {
    key == KATA_ANNO_CFG_HYPERVISOR_DEFAULT_VCPUS@ || key
        == KATA_ANNO_CFG_HYPERVISOR_DEFAULT_MEMORY@ || key == KATA_ANNO_CFG_HYPERVISOR_KERNEL_PATH@
        || key == KATA_ANNO_CFG_AGENT_TRACE@ || key == KATA_ANNO_CFG_RUNTIME_TRACE@
}

/// Whether an annotation asks for an option that may not be set.
pub open spec fn is_unsupported(key: Seq<char>) -> bool {
    KATA_ANNO_CFG_PREFIX@.is_prefix_of(key) && !is_supported(key)
}

/// Which name a configuration lacks.
#[derive(Clone, Copy, Debug, PartialEq, Eq, Structural)]
pub enum NameKind {
    Runtime,
    Hypervisor,
    Agent,
}

/// Why annotations are refused.
#[derive(Debug)]
pub enum AnnotationError {
    /// This annotation asks for an option that may not be set.
    Unsupported(String),
    /// The configuration lacks a name.
    NameMissing(NameKind),
    InvalidHypervisor(String),
    InvalidAgent(String),
    ParseVcpus,
    TooManyVcpus(Vcpus),
    /// This much memory in megabytes is more than can be counted.
    MemoryTooLarge(u64),
    TooLittleMemory(u32),
    ParseBool,
    /// The configuration as a whole is refused.
    Config(HypervisorError),
}

/// An `AnnotationError` over sequences.
pub enum AnnotationFault {
    Unsupported(Seq<char>),
    NameMissing(NameKind),
    InvalidHypervisor(Seq<char>),
    InvalidAgent(Seq<char>),
    ParseVcpus,
    TooManyVcpus(Vcpus),
    MemoryTooLarge(u64),
    TooLittleMemory(u32),
    ParseBool,
    Config(HypervisorFault),
}

impl View for AnnotationError {
    type V = AnnotationFault;

    open spec fn view(&self) -> AnnotationFault {
        match *self {
            AnnotationError::Unsupported(s) => AnnotationFault::Unsupported(s@),
            AnnotationError::NameMissing(k) => AnnotationFault::NameMissing(k),
            AnnotationError::InvalidHypervisor(s) => AnnotationFault::InvalidHypervisor(s@),
            AnnotationError::InvalidAgent(s) => AnnotationFault::InvalidAgent(s@),
            AnnotationError::ParseVcpus => AnnotationFault::ParseVcpus,
            AnnotationError::TooManyVcpus(v) => AnnotationFault::TooManyVcpus(v),
            AnnotationError::MemoryTooLarge(n) => AnnotationFault::MemoryTooLarge(n),
            AnnotationError::TooLittleMemory(n) => AnnotationFault::TooLittleMemory(n),
            AnnotationError::ParseBool => AnnotationFault::ParseBool,
            AnnotationError::Config(e) => AnnotationFault::Config(e@),
        }
    }
}

impl AnnotationFault {
    /// The text of the error. `vcpus` is how the number of virtual CPUs is written.
    pub open spec fn text(self, vcpus: Seq<char>) -> Seq<char> {
        match self {
            AnnotationFault::Unsupported(s) => {
                let lead = "kata-fc-minimal: unsupported configuration annotation "@ + s;
                if s == KATA_ANNO_CFG_HYPERVISOR_INIT_DATA@ {
                    lead + ": initdata is unsupported"@
                } else {
                    lead
                }
            },
            AnnotationFault::NameMissing(k) => (match k {
                NameKind::Runtime => "Runtime"@,
                NameKind::Hypervisor => "Hypervisor"@,
                NameKind::Agent => "Agent"@,
            }) + " name is missing in the configuration"@,
            AnnotationFault::InvalidHypervisor(s) => "Invalid hypervisor name "@ + s,
            AnnotationFault::InvalidAgent(s) => "Invalid agent name "@ + s,
            AnnotationFault::ParseVcpus => "parse i32 error"@,
            AnnotationFault::TooManyVcpus(_) => "Vcpus specified in annotation "@ + vcpus
                + " is more than maximum limitation "@ + decimal(MAX_FIRECRACKER_VCPUS as nat),
            AnnotationFault::MemoryTooLarge(n) => "failed to convert "@ + decimal(n as nat)
                + " to MiB"@,
            AnnotationFault::TooLittleMemory(n) => "memory specified in annotation "@ + decimal(
                n as nat,
            ) + " is less than minimum limitation "@ + decimal(
                MIN_FIRECRACKER_MEMORY_SIZE_MB as nat,
            ),
            AnnotationFault::ParseBool => "parse bool error"@,
            AnnotationFault::Config(f) => f.text(),
        }
    }
}

impl AnnotationError {
    /// The text of the error. `vcpus` is how the number of virtual CPUs is written.
    pub fn message(&self, vcpus: &str) -> (r: String)
        ensures
            r@ == self@.text(vcpus@),
    {
        let mut t = String::new();
        match self {
            AnnotationError::Unsupported(s) => {
                t = "kata-fc-minimal: unsupported configuration annotation ".to_owned();
                t.append(s.as_str());
                if str_eq(s.as_str(), KATA_ANNO_CFG_HYPERVISOR_INIT_DATA) {
                    t.append(": initdata is unsupported");
                }
            },
            AnnotationError::NameMissing(k) => {
                t = match k {
                    NameKind::Runtime => "Runtime".to_owned(),
                    NameKind::Hypervisor => "Hypervisor".to_owned(),
                    NameKind::Agent => "Agent".to_owned(),
                };
                t.append(" name is missing in the configuration");
            },
            AnnotationError::InvalidHypervisor(s) => {
                t = "Invalid hypervisor name ".to_owned();
                t.append(s.as_str());
            },
            AnnotationError::InvalidAgent(s) => {
                t = "Invalid agent name ".to_owned();
                t.append(s.as_str());
            },
            AnnotationError::ParseVcpus => {
                t = "parse i32 error".to_owned();
            },
            AnnotationError::TooManyVcpus(_) => {
                t = "Vcpus specified in annotation ".to_owned();
                t.append(vcpus);
                t.append(" is more than maximum limitation ");
                push_u64(&mut t, MAX_FIRECRACKER_VCPUS as u64);
            },
            AnnotationError::MemoryTooLarge(n) => {
                t = "failed to convert ".to_owned();
                push_u64(&mut t, *n);
                t.append(" to MiB");
            },
            AnnotationError::TooLittleMemory(n) => {
                t = "memory specified in annotation ".to_owned();
                push_u64(&mut t, *n as u64);
                t.append(" is less than minimum limitation ");
                push_u64(&mut t, MIN_FIRECRACKER_MEMORY_SIZE_MB as u64);
            },
            AnnotationError::ParseBool => {
                t = "parse bool error".to_owned();
            },
            AnnotationError::Config(e) => {
                t = e.message();
            },
        }
        t
    }
}

/// Whether no annotation asks for an option that may not be set.
pub open spec fn all_supported(annotations: Map<Seq<char>, String>) -> bool {
    forall|k: Seq<char>| #[trigger] annotations.contains_key(k) ==> !is_unsupported(k)
}

/// Refuses annotations for options that may not be set. Other annotations are passed
/// over.
pub fn validate_config_annotations(annotations: &StrMap<String>) -> (r: Result<
    (),
    AnnotationError,
>)
    ensures
        match r {
            Ok(_) => all_supported(annotations@),
            Err(e) => !all_supported(annotations@) && (e@ matches AnnotationFault::Unsupported(k)
                && annotations@.contains_key(k) && is_unsupported(k)),
        },
{
    let prefix = chars_of(KATA_ANNO_CFG_PREFIX);
    let n: usize = annotations.len();
    let mut i: usize = 0;
    while i < n
        invariant
            i <= n,
            n == annotations.entries().len(),
            prefix@ == KATA_ANNO_CFG_PREFIX@,
            forall|k: int|
                0 <= k < i ==> !is_unsupported((#[trigger] annotations.entries()[k]).0@),
        decreases n - i,
    {
        let (key, _v) = annotations.entry(i);
        let k = key.as_str();
        let c = chars_of(k);
        if starts_with(c.as_slice(), prefix.as_slice()) && !(str_eq(
            k,
            KATA_ANNO_CFG_HYPERVISOR_DEFAULT_VCPUS,
        ) || str_eq(k, KATA_ANNO_CFG_HYPERVISOR_DEFAULT_MEMORY) || str_eq(
            k,
            KATA_ANNO_CFG_HYPERVISOR_KERNEL_PATH,
        ) || str_eq(k, KATA_ANNO_CFG_AGENT_TRACE) || str_eq(k, KATA_ANNO_CFG_RUNTIME_TRACE)) {
            proof {
                assert(is_unsupported(key@));
            }
            return Err(AnnotationError::Unsupported(key.clone()));
        }
        i += 1;
    }
    proof {
        annotations.lemma_keys();
        assert forall|k: Seq<char>| #[trigger]
            annotations@.contains_key(k) implies !is_unsupported(k) by {
            let j = annotations.position(k);
            assert(!is_unsupported(annotations.entries()[j].0@));
        }
    }
    Ok(())
}

/// The bytes that `byte_unit::Byte::parse_str` reads from a text, without regard to the
/// case of its unit, where it reads any.
pub uninterp spec fn parsed_size(text: Seq<char>) -> Option<u64>;

/// `byte_unit::Byte::parse_str` reads an amount of bytes: a number and a unit, with white
/// space around it. A number of decimal digits alone is that many bytes, where they can be
/// counted in 64 bits. What other texts give is not stated.
#[verifier::external_body]
fn parse_size(text: &str) -> (r: Option<u64>)
    ensures
        r == parsed_size(text@),
        all_digits(trimmed(text@), 10) ==> r == if digits_value(trimmed(text@), 10) <= u64::MAX {
            Some(digits_value(trimmed(text@), 10) as u64)
        } else {
            None
        },
{
    byte_unit::Byte::parse_str(text, true).ok().map(|b| b.as_u64())
}

/// `byte_unit::Byte::from_u64_with_unit` counts mebibytes in bytes, where they can be
/// counted in 64 bits.
#[verifier::external_body]
fn mebibytes(n: u64) -> (r: Option<u64>)
    ensures
        r == if n * 0x10_0000 <= u64::MAX {
            Some((n * 0x10_0000) as u64)
        } else {
            None
        },
{
    byte_unit::Byte::from_u64_with_unit(n, byte_unit::Unit::MiB).map(|b| b.as_u64())
}

/// `byte_unit::Byte::get_adjusted_unit` gives bytes in mebibytes. Their whole number is
/// stated, which ends at the largest number of 32 bits.
#[verifier::external_body]
fn whole_mebibytes(bytes: u64) -> (r: u32)
    ensures
        r == if bytes / 0x10_0000 <= u32::MAX {
            bytes as int / 0x10_0000
        } else {
            u32::MAX as int
        },
{
    byte_unit::Byte::from_u64(bytes).get_adjusted_unit(byte_unit::Unit::MiB).get_value() as u32
}

/// The megabytes that a text gives once its bytes were read: a number without a unit
/// counts megabytes.
pub open spec fn megabytes(text: Seq<char>, parsed: Option<u64>) -> Result<
    Option<u32>,
    AnnotationFault,
> {
    match parsed {
        None => Ok(None),
        Some(n) => {
            let bare = forall|i: int|
                0 <= i < trimmed(text).len() ==> 48 <= (#[trigger] trimmed(text)[i]) as u32 <= 57;
            if bare && n * 0x10_0000 > u64::MAX {
                Err(AnnotationFault::MemoryTooLarge(n))
            } else {
                let bytes = if bare {
                    n * 0x10_0000
                } else {
                    n as int
                };
                Ok(
                    Some(
                        if bytes / 0x10_0000 <= u32::MAX {
                            (bytes / 0x10_0000) as u32
                        } else {
                            u32::MAX
                        },
                    ),
                )
            }
        },
    }
}

/// Tells how many megabytes a text gives once its bytes were read.
pub fn megabytes_of(text: &str, parsed: Option<u64>) -> (r: Result<Option<u32>, AnnotationError>)
    ensures
        match r {
            Ok(m) => megabytes(text@, parsed) == Ok::<Option<u32>, AnnotationFault>(m),
            Err(e) => megabytes(text@, parsed) == Err::<Option<u32>, AnnotationFault>(e@),
        },
{
    let n: u64 = match parsed {
        None => {
            return Ok(None);
        },
        Some(n) => n,
    };
    let c = chars_of(text);
    let t = trim(c.as_slice());
    let mut bare = true;
    let mut i: usize = 0;
    while i < t.len()
        invariant
            i <= t.len(),
            bare == forall|k: int| 0 <= k < i ==> 48 <= (#[trigger] t@[k]) as u32 <= 57,
        decreases t.len() - i,
    {
        let code: u32 = t[i] as u32;
        if code < 48 || 57 < code {
            bare = false;
        }
        i += 1;
    }
    let bytes: u64 = if bare {
        match mebibytes(n) {
            Some(b) => b,
            None => {
                return Err(AnnotationError::MemoryTooLarge(n));
            },
        }
    } else {
        n
    };
    Ok(Some(whole_mebibytes(bytes)))
}

/// The number that a text of decimal digits alone writes, with white space around it.
pub open spec fn bare_number(text: Seq<char>) -> Option<nat> {
    if all_digits(trimmed(text), 10) {
        Some(digits_value(trimmed(text), 10))
    } else {
        None
    }
}

/// Reads an amount of memory in megabytes. A text that gives none is passed over. A number
/// without a unit is an amount of megabytes.
pub fn convert_to_megabytes(text: &str) -> (r: Result<Option<u32>, AnnotationError>)
    ensures
        bare_number(text@) matches Some(n) ==> n <= u32::MAX ==> r == Ok::<
            Option<u32>,
            AnnotationError,
        >(Some(n as u32)),
        match r {
            Ok(m) => megabytes(text@, parsed_size(text@)) == Ok::<Option<u32>, AnnotationFault>(m),
            Err(e) => megabytes(text@, parsed_size(text@)) == Err::<Option<u32>, AnnotationFault>(
                e@,
            ),
        },
{
    let parsed = parse_size(text);
    proof {
        if let Some(n) = bare_number(text@) {
            if n <= u32::MAX {
                law_bare_numbers_are_megabytes(text@, n as u32);
            }
        }
    }
    megabytes_of(text, parsed)
}

/// A number without a unit is an amount of megabytes.
pub proof fn law_bare_numbers_are_megabytes(text: Seq<char>, n: u32)
    requires
        all_digits(trimmed(text), 10),
        digits_value(trimmed(text), 10) == n,
    ensures
        megabytes(text, Some(n as u64)) == Ok::<Option<u32>, AnnotationFault>(Some(n)),
{
    let t = trimmed(text);
    assert forall|i: int| 0 <= i < t.len() implies 48 <= (#[trigger] t[i]) as u32 <= 57 by {
        lemma_decimal_digit(t[i]);
    }
}

proof fn lemma_decimal_digit(c: char)
    ensures
        crate::text::digit_of(c, 10) < 10 ==> 48 <= c as u32 <= 57,
{
}

/// Which options of the hypervisor the configuration lets annotations set.
#[derive(Clone, Copy, Debug, PartialEq, Eq, Structural)]
pub struct EnabledOptions {
    pub vcpus: bool,
    pub memory: bool,
    pub kernel: bool,
}

/// What annotations set.
#[derive(Debug)]
pub struct Settings {
    pub vcpus: Option<Vcpus>,
    pub memory: Option<u32>,
    pub kernel: Option<String>,
    pub agent_tracing: Option<bool>,
    pub runtime_tracing: Option<bool>,
}

/// What annotations set, over sequences.
pub struct SettingsView {
    pub vcpus: Option<Vcpus>,
    pub memory: Option<u32>,
    pub kernel: Option<Seq<char>>,
    pub agent_tracing: Option<bool>,
    pub runtime_tracing: Option<bool>,
}

impl View for Settings {
    type V = SettingsView;

    open spec fn view(&self) -> SettingsView {
        SettingsView {
            vcpus: self.vcpus,
            memory: self.memory,
            kernel: match self.kernel {
                Some(s) => Some(s@),
                None => None,
            },
            agent_tracing: self.agent_tracing,
            runtime_tracing: self.runtime_tracing,
        }
    }
}

/// The number of virtual CPUs that annotations set. `read` is the number that the
/// annotation writes, where it writes one.
pub open spec fn vcpu_setting(
    annotations: Map<Seq<char>, String>,
    enabled: EnabledOptions,
    read: Option<Vcpus>,
) -> Result<Option<Vcpus>, AnnotationFault> {
    let key = KATA_ANNO_CFG_HYPERVISOR_DEFAULT_VCPUS@;
    if !annotations.contains_key(key) || !enabled.vcpus {
        Ok(None)
    } else {
        match read {
            None => Err(AnnotationFault::ParseVcpus),
            Some(v) => if over_limit(v) {
                Err(AnnotationFault::TooManyVcpus(v))
            } else {
                Ok(Some(v))
            },
        }
    }
}

/// Whether annotations set a size of the hypervisor that can be read, and whose limits
/// therefore count.
pub open spec fn asks_for_size(
    annotations: Map<Seq<char>, String>,
    enabled: EnabledOptions,
    vcpus: Option<Vcpus>,
    parsed: Option<u64>,
) -> bool {
    let cpus = KATA_ANNO_CFG_HYPERVISOR_DEFAULT_VCPUS@;
    let memory = KATA_ANNO_CFG_HYPERVISOR_DEFAULT_MEMORY@;
    ||| annotations.contains_key(cpus) && enabled.vcpus && vcpus is Some
    ||| annotations.contains_key(memory) && enabled.memory && (megabytes(
        annotations[memory]@,
        parsed,
    ) matches Ok(m) && m is Some)
}

/// The memory that annotations set. `parsed` are the bytes that the annotation gives.
pub open spec fn memory_setting(
    annotations: Map<Seq<char>, String>,
    enabled: EnabledOptions,
    parsed: Option<u64>,
) -> Result<Option<u32>, AnnotationFault> {
    let key = KATA_ANNO_CFG_HYPERVISOR_DEFAULT_MEMORY@;
    if !annotations.contains_key(key) || !enabled.memory {
        Ok(None)
    } else {
        match megabytes(annotations[key]@, parsed) {
            Err(f) => Err(f),
            Ok(None) => Ok(None),
            Ok(Some(m)) => if m < MIN_FIRECRACKER_MEMORY_SIZE_MB {
                Err(AnnotationFault::TooLittleMemory(m))
            } else {
                Ok(Some(m))
            },
        }
    }
}

/// The kernel that annotations set.
pub open spec fn kernel_setting(
    annotations: Map<Seq<char>, String>,
    enabled: EnabledOptions,
) -> Option<Seq<char>> {
    let key = KATA_ANNO_CFG_HYPERVISOR_KERNEL_PATH@;
    if enabled.kernel {
        value_of(annotations, key)
    } else {
        None
    }
}

/// A switch that annotations set.
pub open spec fn switch_setting(annotations: Map<Seq<char>, String>, key: Seq<char>) -> Result<
    Option<bool>,
    AnnotationFault,
> {
    match value_of(annotations, key) {
        None => Ok(None),
        Some(text) => match bool::written(text) {
            Some(b) => Ok(Some(b)),
            None => Err(AnnotationFault::ParseBool),
        },
    }
}

/// What annotations set: the virtual CPUs, the memory, the kernel and the tracing, where
/// all of it can be read.
pub open spec fn settings(
    annotations: Map<Seq<char>, String>,
    enabled: EnabledOptions,
    vcpus: Option<Vcpus>,
    parsed: Option<u64>,
) -> Result<SettingsView, AnnotationFault> {
    let agent = switch_setting(annotations, KATA_ANNO_CFG_AGENT_TRACE@);
    let runtime = switch_setting(annotations, KATA_ANNO_CFG_RUNTIME_TRACE@);
    match vcpu_setting(annotations, enabled, vcpus) {
        Err(f) => Err(f),
        Ok(cpus) => match memory_setting(annotations, enabled, parsed) {
            Err(f) => Err(f),
            Ok(memory) => if agent is Err {
                Err(agent->Err_0)
            } else if runtime is Err {
                Err(runtime->Err_0)
            } else {
                Ok(
                    SettingsView {
                        vcpus: cpus,
                        memory,
                        kernel: kernel_setting(annotations, enabled),
                        agent_tracing: agent->Ok_0,
                        runtime_tracing: runtime->Ok_0,
                    },
                )
            },
        },
    }
}

/// The bytes that the annotation with the memory gives.
pub open spec fn memory_bytes(annotations: Map<Seq<char>, String>) -> Option<u64> {
    let key = KATA_ANNO_CFG_HYPERVISOR_DEFAULT_MEMORY@;
    if annotations.contains_key(key) {
        parsed_size(annotations[key]@)
    } else {
        None
    }
}

/// Whether an annotation with the memory that is a number without a unit gives that many
/// megabytes: what it gives is read as that number of bytes, and counted in megabytes.
pub open spec fn bare_memory_is_read(annotations: Map<Seq<char>, String>) -> bool {
    let key = KATA_ANNO_CFG_HYPERVISOR_DEFAULT_MEMORY@;
    annotations.contains_key(key) ==> (bare_number(annotations[key]@) matches Some(n) ==> {
        &&& n <= u64::MAX ==> memory_bytes(annotations) == Some(n as u64)
        &&& n > u64::MAX ==> memory_bytes(annotations) is None
        &&& n <= u32::MAX ==> megabytes(annotations[key]@, memory_bytes(annotations)) == Ok::<
            Option<u32>,
            AnnotationFault,
        >(Some(n as u32))
    })
}

/// Why a configuration cannot take annotations: it must name its runtime, its hypervisor
/// and its agent, and have the latter two.
pub open spec fn name_fault(conf: TomlConfig) -> Option<AnnotationFault> {
    if conf.runtime.name@.len() == 0 {
        Some(AnnotationFault::NameMissing(NameKind::Runtime))
    } else if conf.runtime.hypervisor_name@.len() == 0 {
        Some(AnnotationFault::NameMissing(NameKind::Hypervisor))
    } else if conf.runtime.agent_name@.len() == 0 {
        Some(AnnotationFault::NameMissing(NameKind::Agent))
    } else if !conf.hypervisor@.contains_key(conf.runtime.hypervisor_name@) {
        Some(AnnotationFault::InvalidHypervisor(conf.runtime.hypervisor_name@))
    } else if !conf.agent@.contains_key(conf.runtime.agent_name@) {
        Some(AnnotationFault::InvalidAgent(conf.runtime.agent_name@))
    } else {
        None
    }
}

fn check_names(conf: &TomlConfig) -> (r: Result<(), AnnotationError>)
    ensures
        match r {
            Ok(_) => name_fault(*conf) is None,
            Err(e) => name_fault(*conf) == Some(e@),
        },
{
    if conf.runtime.name.as_str().is_empty() {
        return Err(AnnotationError::NameMissing(NameKind::Runtime));
    }
    if conf.runtime.hypervisor_name.as_str().is_empty() {
        return Err(AnnotationError::NameMissing(NameKind::Hypervisor));
    }
    if conf.runtime.agent_name.as_str().is_empty() {
        return Err(AnnotationError::NameMissing(NameKind::Agent));
    }
    if !conf.hypervisor.contains_key(conf.runtime.hypervisor_name.as_str()) {
        return Err(AnnotationError::InvalidHypervisor(conf.runtime.hypervisor_name.clone()));
    }
    if !conf.agent.contains_key(conf.runtime.agent_name.as_str()) {
        return Err(AnnotationError::InvalidAgent(conf.runtime.agent_name.clone()));
    }
    Ok(())
}

/// Whether a hypervisor is another with some settings changed.
pub open spec fn is_set(before: Hypervisor, after: Hypervisor, s: SettingsView) -> bool {
    &&& after.path == before.path
    &&& after.boot_info.image == before.boot_info.image
    &&& after.boot_info.kernel_params == before.boot_info.kernel_params
    &&& after.boot_info.vm_rootfs_driver == before.boot_info.vm_rootfs_driver
    &&& after.boot_info.kernel@ == match s.kernel {
        Some(k) => k,
        None => before.boot_info.kernel@,
    }
    &&& after.block_device_driver == before.block_device_driver
    &&& after.entropy_source == before.entropy_source
    &&& after.default_vcpus == match s.vcpus {
        Some(v) => v,
        None => before.default_vcpus,
    }
    &&& after.default_maxvcpus == before.default_maxvcpus
    &&& after.default_memory == match s.memory {
        Some(m) => m,
        None => before.default_memory,
    }
    &&& after.security_info == before.security_info
}

/// Whether a configuration is another with some settings changed, and nothing else.
pub open spec fn config_set(before: TomlConfig, after: TomlConfig, s: SettingsView) -> bool {
    let hv = before.runtime.hypervisor_name@;
    let ag = before.runtime.agent_name@;
    &&& after.hypervisor@ == before.hypervisor@.insert(hv, after.hypervisor@[hv])
    &&& is_set(before.hypervisor@[hv], after.hypervisor@[hv], s)
    &&& after.agent@ == before.agent@.insert(ag, after.agent@[ag])
    &&& after.agent@[ag].enable_tracing == match s.agent_tracing {
        Some(b) => b,
        None => before.agent@[ag].enable_tracing,
    }
    &&& after.runtime.name == before.runtime.name
    &&& after.runtime.hypervisor_name == before.runtime.hypervisor_name
    &&& after.runtime.agent_name == before.runtime.agent_name
    &&& after.runtime.enable_tracing == match s.runtime_tracing {
        Some(b) => b,
        None => before.runtime.enable_tracing,
    }
}

impl Annotation {
    /// What the annotations set of the options that they may set. `vcpus` is the number that the trimmed
    /// annotation with the virtual CPUs writes, where it writes one, and `parsed` are the
    /// bytes that the one with the memory gives.
    pub fn settings_for(
        &self,
        enabled: EnabledOptions,
        vcpus: Option<Vcpus>,
        parsed: Option<u64>,
    ) -> (r: Result<Settings, AnnotationError>)
        ensures
            match r {
                Ok(s) => settings(self@, enabled, vcpus, parsed) == Ok::<
                    SettingsView,
                    AnnotationFault,
                >(s@),
                Err(e) => settings(self@, enabled, vcpus, parsed) == Err::<
                    SettingsView,
                    AnnotationFault,
                >(e@),
            },
    {
        let mut cpus: Option<Vcpus> = None;
        if self.annotations.contains_key(KATA_ANNO_CFG_HYPERVISOR_DEFAULT_VCPUS) && enabled.vcpus {
            match vcpus {
                None => {
                    return Err(AnnotationError::ParseVcpus);
                },
                Some(v) => {
                    if VCPU_LIMIT_BITS < v.bits && v.bits <= VCPU_INFINITY_BITS {
                        return Err(AnnotationError::TooManyVcpus(v));
                    }
                    cpus = Some(v);
                },
            }
        }
        let mut memory: Option<u32> = None;
        if let Some(text) = self.annotations.get(KATA_ANNO_CFG_HYPERVISOR_DEFAULT_MEMORY) {
            if enabled.memory {
                match megabytes_of(text.as_str(), parsed) {
                    Err(e) => {
                        return Err(e);
                    },
                    Ok(None) => {},
                    Ok(Some(m)) => {
                        if m < MIN_FIRECRACKER_MEMORY_SIZE_MB {
                            return Err(AnnotationError::TooLittleMemory(m));
                        }
                        memory = Some(m);
                    },
                }
            }
        }
        let agent_tracing = match self.get_value::<bool>(KATA_ANNO_CFG_AGENT_TRACE) {
            Ok(b) => b,
            Err(_) => {
                return Err(AnnotationError::ParseBool);
            },
        };
        let runtime_tracing = match self.get_value::<bool>(KATA_ANNO_CFG_RUNTIME_TRACE) {
            Ok(b) => b,
            Err(_) => {
                return Err(AnnotationError::ParseBool);
            },
        };
        let kernel = if enabled.kernel {
            self.get(KATA_ANNO_CFG_HYPERVISOR_KERNEL_PATH)
        } else {
            None
        };
        Ok(Settings { vcpus: cpus, memory, kernel, agent_tracing, runtime_tracing })
    }

    /// Lets the annotations set what they may set in a configuration. `enabled` tells what
    /// that is, and `vcpus` is the number that the trimmed annotation with the virtual CPUs
    /// writes, where it writes one. A configuration that is refused stays as it is, but for
    /// a confidential guest, which is noticed once the settings were made. The limits of
    /// sizes are those of the hypervisor, which must be registered where one is set.
    pub fn update_config_by_annotation(
        &self,
        config: &mut TomlConfig,
        plugins: &HypervisorPlugins,
        enabled: EnabledOptions,
        vcpus: Option<Vcpus>,
    ) -> (r: Result<(), AnnotationError>)
        requires
            needs_plugin(self@, *old(config), enabled, vcpus) ==> plugins.has(
                old(config).runtime.hypervisor_name@,
            ),
        ensures
            updated(self@, *old(config), *final(config), *plugins, enabled, vcpus, r),
            bare_memory_is_read(self@),
    {
        let parsed = self.memory_size();
        if let Err(e) = validate_config_annotations(&self.annotations) {
            return Err(e);
        }
        if let Err(e) = check_names(config) {
            return Err(e);
        }
        let hv = config.runtime.hypervisor_name.clone();
        let ag = config.runtime.agent_name.clone();
        let wanted = match self.settings_for(enabled, vcpus, parsed) {
            Ok(s) => s,
            Err(e) => {
                return Err(e);
            },
        };
        let ghost before = *config;
        let ghost set = wanted@;
        apply(config, hv.as_str(), ag.as_str(), wanted);
        let ghost mid = *config;
        proof {
            assert(config_set(before, mid, set));
        }
        let r = match config.adjust_config(plugins) {
            Ok(_) => Ok(()),
            Err(e) => Err(AnnotationError::Config(e)),
        };
        proof {
            assert(after_adjust(mid, *config, *plugins, r));
            assert(set_and_adjusted(before, *config, set, *plugins, r));
        }
        r
    }

    /// Lets the annotations set what they may set in a configuration, unless they set a size
    /// and the hypervisor is not registered: then there is no result, and the configuration
    /// stays as it is.
    pub fn update_config_if_registered(
        &self,
        config: &mut TomlConfig,
        plugins: &HypervisorPlugins,
        enabled: EnabledOptions,
        vcpus: Option<Vcpus>,
    ) -> (r: Option<Result<(), AnnotationError>>)
        ensures
            bare_memory_is_read(self@),
            match r {
                None => {
                    &&& needs_plugin(self@, *old(config), enabled, vcpus)
                    &&& !plugins.has(old(config).runtime.hypervisor_name@)
                    &&& *final(config) == *old(config)
                },
                Some(done) => {
                    &&& needs_plugin(self@, *old(config), enabled, vcpus) ==> plugins.has(
                        old(config).runtime.hypervisor_name@,
                    )
                    &&& updated(
                        self@,
                        *old(config),
                        *final(config),
                        *plugins,
                        enabled,
                        vcpus,
                        done,
                    )
                },
            },
    {
        let parsed = self.memory_size();
        if validate_config_annotations(&self.annotations).is_ok() && check_names(config).is_ok()
            && self.sets_size(enabled, vcpus, parsed) && plugins.get(
            config.runtime.hypervisor_name.as_str(),
        ).is_none() {
            return None;
        }
        Some(self.update_config_by_annotation(config, plugins, enabled, vcpus))
    }

    fn memory_size(&self) -> (r: Option<u64>)
        ensures
            r == memory_bytes(self@),
            bare_memory_is_read(self@),
    {
        match self.annotations.get(KATA_ANNO_CFG_HYPERVISOR_DEFAULT_MEMORY) {
            Some(text) => {
                proof {
                    if let Some(n) = bare_number(text@) {
                        if n <= u32::MAX {
                            law_bare_numbers_are_megabytes(text@, n as u32);
                        }
                    }
                }
                parse_size(text.as_str())
            },
            None => None,
        }
    }

    /// Tells whether the annotations set a size of the hypervisor that can be read.
    pub fn sets_size(
        &self,
        enabled: EnabledOptions,
        vcpus: Option<Vcpus>,
        parsed: Option<u64>,
    ) -> (r: bool)
        ensures
            r == asks_for_size(self@, enabled, vcpus, parsed),
    {
        if self.annotations.contains_key(KATA_ANNO_CFG_HYPERVISOR_DEFAULT_VCPUS) && enabled.vcpus
            && vcpus.is_some() {
            return true;
        }
        match self.annotations.get(KATA_ANNO_CFG_HYPERVISOR_DEFAULT_MEMORY) {
            Some(text) => enabled.memory && match megabytes_of(text.as_str(), parsed) {
                Ok(m) => m.is_some(),
                Err(_) => false,
            },
            None => false,
        }
    }
}

/// Whether the limits of the hypervisor count for what annotations set.
pub open spec fn needs_plugin(
    annotations: Map<Seq<char>, String>,
    config: TomlConfig,
    enabled: EnabledOptions,
    vcpus: Option<Vcpus>,
) -> bool {
    all_supported(annotations) && name_fault(config) is None && asks_for_size(
        annotations,
        enabled,
        vcpus,
        memory_bytes(annotations),
    )
}

/// What letting annotations set what they may set in a configuration comes to.
pub open spec fn updated(
    annotations: Map<Seq<char>, String>,
    before: TomlConfig,
    after: TomlConfig,
    plugins: HypervisorPlugins,
    enabled: EnabledOptions,
    vcpus: Option<Vcpus>,
    r: Result<(), AnnotationError>,
) -> bool {
    let wanted = settings(annotations, enabled, vcpus, memory_bytes(annotations));
    if !all_supported(annotations) {
        &&& (r matches Err(e) && (e@ matches AnnotationFault::Unsupported(k)
            && annotations.contains_key(k) && is_unsupported(k)))
        &&& after == before
    } else if name_fault(before) is Some {
        &&& (r matches Err(e) && e@ == name_fault(before)->0)
        &&& after == before
    } else if wanted is Err {
        &&& (r matches Err(e) && e@ == wanted->Err_0)
        &&& after == before
    } else {
        set_and_adjusted(before, after, wanted->Ok_0, plugins, r)
    }
}

/// What filling in the defaults of a configuration comes to.
pub open spec fn after_adjust(
    before: TomlConfig,
    after: TomlConfig,
    plugins: HypervisorPlugins,
    r: Result<(), AnnotationError>,
) -> bool {
    let name = crate::hypervisor::HYPERVISOR_NAME_FIRECRACKER@;
    &&& after.agent == before.agent
    &&& after.runtime == before.runtime
    &&& if plugins.firecracker is None || !before.hypervisor@.contains_key(name) {
        r is Ok && after.hypervisor@ == before.hypervisor@
    } else if crate::hypervisor::is_confidential(before.hypervisor@[name]) {
        (r matches Err(e) && e@ == AnnotationFault::Config(HypervisorFault::Confidential))
            && after.hypervisor@ == before.hypervisor@
    } else {
        &&& r is Ok
        &&& crate::hypervisor::is_adjusted(before.hypervisor@[name], after.hypervisor@[name])
        &&& after.hypervisor@ == before.hypervisor@.insert(name, after.hypervisor@[name])
    }
}

/// What making settings and then filling in the defaults of a configuration comes to.
pub open spec fn set_and_adjusted(
    before: TomlConfig,
    after: TomlConfig,
    s: SettingsView,
    plugins: HypervisorPlugins,
    r: Result<(), AnnotationError>,
) -> bool {
    exists|mid: TomlConfig| #[trigger]
        config_set(before, mid, s) && after_adjust(mid, after, plugins, r)
}

fn apply(config: &mut TomlConfig, hv: &str, ag: &str, s: Settings)
    requires
        old(config).hypervisor@.contains_key(hv@),
        old(config).agent@.contains_key(ag@),
        hv@ == old(config).runtime.hypervisor_name@,
        ag@ == old(config).runtime.agent_name@,
    ensures
        config_set(*old(config), *final(config), s@),
{
    if let Some(h) = config.hypervisor.get_mut(hv) {
        if let Some(v) = s.vcpus {
            h.default_vcpus = v;
        }
        if let Some(m) = s.memory {
            h.default_memory = m;
        }
        if let Some(k) = s.kernel {
            h.boot_info.kernel = k;
        }
    }
    if let Some(a) = config.agent.get_mut(ag) {
        if let Some(b) = s.agent_tracing {
            a.enable_tracing = b;
        }
    }
    if let Some(b) = s.runtime_tracing {
        config.runtime.enable_tracing = b;
    }
}

/// An annotation that sets an option which the configuration does not enable is passed
/// over, whatever it holds.
pub proof fn law_disabled_options_are_ignored(
    annotations: Map<Seq<char>, String>,
    enabled: EnabledOptions,
    vcpus: Option<Vcpus>,
    parsed: Option<u64>,
)
    ensures
        !enabled.vcpus ==> vcpu_setting(annotations, enabled, vcpus) == Ok::<
            Option<Vcpus>,
            AnnotationFault,
        >(None),
        !enabled.memory ==> memory_setting(annotations, enabled, parsed) == Ok::<
            Option<u32>,
            AnnotationFault,
        >(None),
        !enabled.kernel ==> kernel_setting(annotations, enabled) is None,
        !enabled.vcpus && !enabled.memory ==> !asks_for_size(annotations, enabled, vcpus, parsed),
{
}

/// What annotations set is within the limits of the hypervisor.
pub proof fn law_settings_keep_the_limits(
    annotations: Map<Seq<char>, String>,
    enabled: EnabledOptions,
    vcpus: Option<Vcpus>,
    parsed: Option<u64>,
)
    requires
        settings(annotations, enabled, vcpus, parsed) is Ok,
    ensures
        ({
            let s = settings(annotations, enabled, vcpus, parsed)->Ok_0;
            &&& s.vcpus matches Some(v) ==> !over_limit(v)
            &&& s.memory matches Some(m) ==> m >= MIN_FIRECRACKER_MEMORY_SIZE_MB
        }),
{
}

} // verus!
