//! The configuration of the agent. Options that are not known fail.
use vstd::prelude::*;

use crate::text::{
    chars_of, fields, int_of, split_once, split_once_of,
    starts_with, str_eq, string_of, uint_of, words, words_on, Sep,
};

verus! {

/// How much is logged.
#[derive(Clone, Copy, Debug, PartialEq, Eq, Structural)]
pub enum LogLevel {
    Critical,
    Error,
    Warning,
    Info,
    Debug,
    Trace,
}

/// A span of time.
#[derive(Clone, Copy, Debug, PartialEq, Eq, Structural)]
pub struct Span {
    pub secs: u64,
    pub nanos: u32,
}

/// The configuration of the agent.
#[derive(Debug)]
pub struct AgentConfig {
    pub tracing: bool,
    pub log_level: LogLevel,
    pub hotplug_timeout: Span,
    pub log_vport: u32,
    pub container_pipe_size: i32,
    pub server_addr: String,
    pub cgroup_no_v1: String,
    pub unified_cgroup_hierarchy: bool,
}

/// An `AgentConfig` over sequences.
pub struct ConfigView {
    pub tracing: bool,
    pub log_level: LogLevel,
    pub hotplug_timeout: Span,
    pub log_vport: u32,
    pub container_pipe_size: i32,
    pub server_addr: Seq<char>,
    pub cgroup_no_v1: Seq<char>,
    pub unified_cgroup_hierarchy: bool,
}

impl View for AgentConfig {
    type V = ConfigView;

    open spec fn view(&self) -> ConfigView {
        ConfigView {
            tracing: self.tracing,
            log_level: self.log_level,
            hotplug_timeout: self.hotplug_timeout,
            log_vport: self.log_vport,
            container_pipe_size: self.container_pipe_size,
            server_addr: self.server_addr@,
            cgroup_no_v1: self.cgroup_no_v1@,
            unified_cgroup_hierarchy: self.unified_cgroup_hierarchy,
        }
    }
}

/// What a configuration file says.
#[derive(Debug)]
pub struct ConfigFile {
    pub tracing: Option<bool>,
    pub log_level: Option<String>,
    pub hotplug_timeout: Option<Span>,
    pub log_vport: Option<u32>,
    pub container_pipe_size: Option<i32>,
    pub server_addr: Option<String>,
    pub cgroup_no_v1: Option<String>,
    pub unified_cgroup_hierarchy: Option<bool>,
}

/// Why a configuration is refused.
#[derive(Debug)]
pub enum ConfigError {
    InvalidTrace,
    InvalidLevel,
    /// A value that is no number of the option's range, with the words of its parser.
    InvalidNumber(String),
    EmptyAddress,
    EmptyPath,
    InvalidHierarchy,
    UnsupportedOption(String),
    UnsupportedVariable(String),
    ZeroTimeout,
    NegativePipeSize,
    NoAddress,
    MissingPath,
}

/// A `ConfigError` over sequences.
pub enum ConfigFault {
    InvalidTrace,
    InvalidLevel,
    InvalidNumber(Seq<char>),
    EmptyAddress,
    EmptyPath,
    InvalidHierarchy,
    UnsupportedOption(Seq<char>),
    UnsupportedVariable(Seq<char>),
    ZeroTimeout,
    NegativePipeSize,
    NoAddress,
    MissingPath,
}

impl View for ConfigError {
    type V = ConfigFault;

    open spec fn view(&self) -> ConfigFault {
        match *self {
            ConfigError::InvalidTrace => ConfigFault::InvalidTrace,
            ConfigError::InvalidLevel => ConfigFault::InvalidLevel,
            ConfigError::InvalidNumber(s) => ConfigFault::InvalidNumber(s@),
            ConfigError::EmptyAddress => ConfigFault::EmptyAddress,
            ConfigError::EmptyPath => ConfigFault::EmptyPath,
            ConfigError::InvalidHierarchy => ConfigFault::InvalidHierarchy,
            ConfigError::UnsupportedOption(s) => ConfigFault::UnsupportedOption(s@),
            ConfigError::UnsupportedVariable(s) => ConfigFault::UnsupportedVariable(s@),
            ConfigError::ZeroTimeout => ConfigFault::ZeroTimeout,
            ConfigError::NegativePipeSize => ConfigFault::NegativePipeSize,
            ConfigError::NoAddress => ConfigFault::NoAddress,
            ConfigError::MissingPath => ConfigFault::MissingPath,
        }
    }
}

impl ConfigFault {
    /// The text of the error.
    pub open spec fn text(self) -> Seq<char> {
        match self {
            ConfigFault::InvalidTrace => "invalid agent.trace value"@,
            ConfigFault::InvalidLevel => "invalid log level"@,
            ConfigFault::InvalidNumber(s) => s,
            ConfigFault::EmptyAddress => "empty server address"@,
            ConfigFault::EmptyPath => "empty config file path"@,
            ConfigFault::InvalidHierarchy => "invalid unified_cgroup_hierarchy value"@,
            ConfigFault::UnsupportedOption(s) => "kata-fc: unsupported agent option "@ + s,
            ConfigFault::UnsupportedVariable(s) =>
                "kata-fc: unsupported agent environment option "@ + s,
            ConfigFault::ZeroTimeout => "hotplug_timeout must be positive"@,
            ConfigFault::NegativePipeSize => "container_pipe_size must not be negative"@,
            ConfigFault::NoAddress => "server_addr must not be empty"@,
            ConfigFault::MissingPath => "missing agent config path"@,
        }
    }
}

fn phrase(lead: &str, tail: &str) -> (r: String)
    ensures
        r@ == lead@ + tail@,
{
    let mut s = lead.to_owned();
    s.append(tail);
    s
}

impl ConfigError {
    /// The text of the error.
    pub fn message(&self) -> (r: String)
        ensures
            r@ == self@.text(),
    {
        match self {
            ConfigError::InvalidTrace => "invalid agent.trace value".to_owned(),
            ConfigError::InvalidLevel => "invalid log level".to_owned(),
            ConfigError::InvalidNumber(s) => s.clone(),
            ConfigError::EmptyAddress => "empty server address".to_owned(),
            ConfigError::EmptyPath => "empty config file path".to_owned(),
            ConfigError::InvalidHierarchy => "invalid unified_cgroup_hierarchy value".to_owned(),
            ConfigError::UnsupportedOption(s) => phrase(
                "kata-fc: unsupported agent option ",
                s.as_str(),
            ),
            ConfigError::UnsupportedVariable(s) => phrase(
                "kata-fc: unsupported agent environment option ",
                s.as_str(),
            ),
            ConfigError::ZeroTimeout => "hotplug_timeout must be positive".to_owned(),
            ConfigError::NegativePipeSize =>
                "container_pipe_size must not be negative".to_owned(),
            ConfigError::NoAddress => "server_addr must not be empty".to_owned(),
            ConfigError::MissingPath => "missing agent config path".to_owned(),
        }
    }
}

/// The words of the error with which `str::parse` refuses a text as a number of type `u64`.
pub uninterp spec fn u64_fault(text: Seq<char>) -> Seq<char>;

/// `str::parse` reads a number of type `u64`, and refuses every other text with an error
/// that depends on the text alone. The words of the error are not stated.
#[verifier::external_body]
fn read_u64(text: &str) -> (r: Result<u64, String>)
    ensures
        match r {
            Ok(n) => uint_of(text@, 10, u64::MAX as nat) == Some(n as nat),
            Err(words) => uint_of(text@, 10, u64::MAX as nat) is None && words@ == u64_fault(text@),
        },
{
    match text.parse::<u64>() {
        Ok(n) => Ok(n),
        Err(e) => Err(e.to_string()),
    }
}

/// The words of the error with which `str::parse` refuses a text as a number of type `u32`.
pub uninterp spec fn u32_fault(text: Seq<char>) -> Seq<char>;

/// `str::parse` reads a number of type `u32`, and refuses every other text with an error
/// that depends on the text alone. The words of the error are not stated.
#[verifier::external_body]
fn read_u32(text: &str) -> (r: Result<u32, String>)
    ensures
        match r {
            Ok(n) => uint_of(text@, 10, u32::MAX as nat) == Some(n as nat),
            Err(words) => uint_of(text@, 10, u32::MAX as nat) is None && words@ == u32_fault(text@),
        },
{
    match text.parse::<u32>() {
        Ok(n) => Ok(n),
        Err(e) => Err(e.to_string()),
    }
}

/// The words of the error with which `str::parse` refuses a text as a number of type `i32`.
pub uninterp spec fn i32_fault(text: Seq<char>) -> Seq<char>;

/// `str::parse` reads a number of type `i32`, and refuses every other text with an error
/// that depends on the text alone. The words of the error are not stated.
#[verifier::external_body]
fn read_i32(text: &str) -> (r: Result<i32, String>)
    ensures
        match r {
            Ok(n) => int_of(text@, i32::MIN as int, i32::MAX as int) == Some(n as int),
            Err(words) => int_of(text@, i32::MIN as int, i32::MAX as int) is None && words@ == i32_fault(text@),
        },
{
    match text.parse::<i32>() {
        Ok(n) => Ok(n),
        Err(e) => Err(e.to_string()),
    }
}

/// The level that a name stands for.
pub open spec fn level_of(name: Seq<char>) -> Option<LogLevel> {
    if name == "fatal"@ || name == "panic"@ || name == "critical"@ {
        Some(LogLevel::Critical)
    } else if name == "error"@ {
        Some(LogLevel::Error)
    } else if name == "warn"@ || name == "warning"@ {
        Some(LogLevel::Warning)
    } else if name == "info"@ {
        Some(LogLevel::Info)
    } else if name == "debug"@ {
        Some(LogLevel::Debug)
    } else if name == "trace"@ {
        Some(LogLevel::Trace)
    } else {
        None
    }
}

/// Looks a level up by its name.
pub fn log_level(name: &str) -> (r: Result<LogLevel, ConfigError>)
    ensures
        match r {
            Ok(l) => level_of(name@) == Some(l),
            Err(e) => level_of(name@) is None && e@ == ConfigFault::InvalidLevel,
        },
{
    if str_eq(name, "fatal") || str_eq(name, "panic") || str_eq(name, "critical") {
        Ok(LogLevel::Critical)
    } else if str_eq(name, "error") {
        Ok(LogLevel::Error)
    } else if str_eq(name, "warn") || str_eq(name, "warning") {
        Ok(LogLevel::Warning)
    } else if str_eq(name, "info") {
        Ok(LogLevel::Info)
    } else if str_eq(name, "debug") {
        Ok(LogLevel::Debug)
    } else if str_eq(name, "trace") {
        Ok(LogLevel::Trace)
    } else {
        Err(ConfigError::InvalidLevel)
    }
}

/// The configuration where nothing is said.
pub open spec fn default_config() -> ConfigView {
    ConfigView {
        tracing: false,
        log_level: LogLevel::Info,
        hotplug_timeout: Span { secs: 3, nanos: 0 },
        log_vport: 0,
        container_pipe_size: 0,
        server_addr: "vsock://-1:1024"@,
        cgroup_no_v1: Seq::empty(),
        unified_cgroup_hierarchy: false,
    }
}

impl Default for AgentConfig {
    fn default() -> (r: Self)
        ensures
            r@ == default_config(),
    {
        AgentConfig {
            tracing: false,
            log_level: LogLevel::Info,
            hotplug_timeout: Span { secs: 3, nanos: 0 },
            log_vport: 0,
            container_pipe_size: 0,
            server_addr: "vsock://-1:1024".to_owned(),
            cgroup_no_v1: String::new(),
            unified_cgroup_hierarchy: false,
        }
    }
}

/// What is wrong with a configuration, where something is.
pub open spec fn fault_of(c: ConfigView) -> Option<ConfigFault> {
    if c.hotplug_timeout.secs == 0 && c.hotplug_timeout.nanos == 0 {
        Some(ConfigFault::ZeroTimeout)
    } else if c.container_pipe_size < 0 {
        Some(ConfigFault::NegativePipeSize)
    } else if c.server_addr.len() == 0 {
        Some(ConfigFault::NoAddress)
    } else {
        None
    }
}

/// A value, or another where it is not given.
pub open spec fn or<T>(value: Option<T>, other: T) -> T {
    match value {
        Some(v) => v,
        None => other,
    }
}

/// The characters of a string that may be there.
pub open spec fn text_or(value: Option<String>, other: Seq<char>) -> Seq<char> {
    match value {
        Some(v) => v@,
        None => other,
    }
}

/// The configuration that a file gives: what it says, and the defaults for the rest.
pub open spec fn file_config(file: ConfigFile) -> Result<ConfigView, ConfigFault> {
    let d = default_config();
    let level = match file.log_level {
        Some(name) => level_of(name@),
        None => Some(d.log_level),
    };
    if level is None {
        Err(ConfigFault::InvalidLevel)
    } else {
        let c = ConfigView {
            tracing: or(file.tracing, d.tracing),
            log_level: level->0,
            hotplug_timeout: or(file.hotplug_timeout, d.hotplug_timeout),
            log_vport: or(file.log_vport, d.log_vport),
            container_pipe_size: or(file.container_pipe_size, d.container_pipe_size),
            server_addr: text_or(file.server_addr, d.server_addr),
            cgroup_no_v1: text_or(file.cgroup_no_v1, d.cgroup_no_v1),
            unified_cgroup_hierarchy: or(
                file.unified_cgroup_hierarchy,
                d.unified_cgroup_hierarchy,
            ),
        };
        match fault_of(c) {
            Some(f) => Err(f),
            None => Ok(c),
        }
    }
}

/// What the kernel command line gives so far: a configuration and the path of a file.
pub struct KernelView {
    pub config: ConfigView,
    pub file: Option<Seq<char>>,
}

/// The key and the value of a parameter; one without a value has an empty one.
pub open spec fn key_value(param: Seq<char>) -> (Seq<char>, Seq<char>) {
    match split_once_of(param, '=') {
        Some(kv) => kv,
        None => (param, Seq::empty()),
    }
}

/// Whether a key is one that the agent knows.
pub open spec fn is_known(key: Seq<char>) -> bool {
    key == "agent.trace"@ || key == "agent.log"@ || key == "agent.hotplug_timeout"@ || key
        == "agent.log_vport"@ || key == "agent.container_pipe_size"@ || key
        == "agent.server_addr"@ || key == "agent.config_file"@ || key == "cgroup_no_v1"@ || key
        == "systemd.unified_cgroup_hierarchy"@
}

/// Whether a parameter is one of the agent that it does not know.
pub open spec fn is_unsupported(param: Seq<char>) -> bool {
    !is_known(key_value(param).0) && "agent."@.is_prefix_of(key_value(param).0)
}

/// What the command line gives after one more parameter. Parameters of the kernel
/// itself are passed over.
pub open spec fn after_param(s: KernelView, param: Seq<char>) -> Result<KernelView, ConfigFault> {
    let (key, value) = key_value(param);
    let c = s.config;
    if key == "agent.trace"@ {
        if value.len() == 0 || value == "true"@ || value == "1"@ {
            Ok(KernelView { config: ConfigView { tracing: true, ..c }, ..s })
        } else if value == "false"@ || value == "0"@ {
            Ok(KernelView { config: ConfigView { tracing: false, ..c }, ..s })
        } else {
            Err(ConfigFault::InvalidTrace)
        }
    } else if key == "agent.log"@ {
        match level_of(value) {
            Some(log_level) => Ok(KernelView { config: ConfigView { log_level, ..c }, ..s }),
            None => Err(ConfigFault::InvalidLevel),
        }
    } else if key == "agent.hotplug_timeout"@ {
        match uint_of(value, 10, u64::MAX as nat) {
            Some(n) => Ok(
                KernelView {
                    config: ConfigView {
                        hotplug_timeout: Span { secs: n as u64, nanos: 0 },
                        ..c
                    },
                    ..s
                },
            ),
            None => Err(ConfigFault::InvalidNumber(u64_fault(value))),
        }
    } else if key == "agent.log_vport"@ {
        match uint_of(value, 10, u32::MAX as nat) {
            Some(n) => Ok(KernelView { config: ConfigView { log_vport: n as u32, ..c }, ..s }),
            None => Err(ConfigFault::InvalidNumber(u32_fault(value))),
        }
    } else if key == "agent.container_pipe_size"@ {
        match int_of(value, i32::MIN as int, i32::MAX as int) {
            Some(n) => Ok(
                KernelView { config: ConfigView { container_pipe_size: n as i32, ..c }, ..s },
            ),
            None => Err(ConfigFault::InvalidNumber(i32_fault(value))),
        }
    } else if key == "agent.server_addr"@ {
        if value.len() == 0 {
            Err(ConfigFault::EmptyAddress)
        } else {
            Ok(KernelView { config: ConfigView { server_addr: value, ..c }, ..s })
        }
    } else if key == "agent.config_file"@ {
        if value.len() == 0 {
            Err(ConfigFault::EmptyPath)
        } else {
            Ok(KernelView { file: Some(value), ..s })
        }
    } else if key == "cgroup_no_v1"@ {
        Ok(KernelView { config: ConfigView { cgroup_no_v1: value, ..c }, ..s })
    } else if key == "systemd.unified_cgroup_hierarchy"@ {
        if value == "1"@ || value == "true"@ {
            Ok(KernelView { config: ConfigView { unified_cgroup_hierarchy: true, ..c }, ..s })
        } else if value == "0"@ || value == "false"@ {
            Ok(KernelView { config: ConfigView { unified_cgroup_hierarchy: false, ..c }, ..s })
        } else {
            Err(ConfigFault::InvalidHierarchy)
        }
    } else if "agent."@.is_prefix_of(key) {
        Err(ConfigFault::UnsupportedOption(key))
    } else {
        Ok(s)
    }
}

/// What the parameters of a command line give, in order.
pub open spec fn after_params(params: Seq<Seq<char>>) -> Result<KernelView, ConfigFault>
    decreases params.len(),
{
    if params.len() == 0 {
        Ok(KernelView { config: default_config(), file: None })
    } else {
        match after_params(params.drop_last()) {
            Ok(s) => after_param(s, params.last()),
            Err(f) => Err(f),
        }
    }
}

/// What a command line gives: all its parameters are checked, and then the
/// configuration as a whole.
pub open spec fn kernel_config(cmdline: Seq<char>) -> Result<KernelView, ConfigFault> {
    match after_params(words_on(cmdline, Sep::AsciiWhite)) {
        Err(f) => Err(f),
        Ok(s) => match fault_of(s.config) {
            Some(f) => Err(f),
            None => Ok(s),
        },
    }
}

/// The position of the first argument that announces a configuration file.
pub open spec fn flag_at(args: Seq<String>) -> Option<int>
    decreases args.len(),
{
    if args.len() == 0 {
        None
    } else {
        match flag_at(args.drop_last()) {
            Some(i) => Some(i),
            None => if args.last()@ == "--config"@ || args.last()@ == "-c"@ {
                Some(args.len() - 1)
            } else {
                None
            },
        }
    }
}

/// The path of the configuration file: the one behind the flag where there is one, else
/// the one of the command line.
pub open spec fn chosen_path(args: Seq<String>, file: Option<Seq<char>>) -> Result<
    Option<Seq<char>>,
    ConfigFault,
> {
    match flag_at(args) {
        None => Ok(file),
        Some(i) => if i + 1 < args.len() {
            Ok(Some(args[i + 1]@))
        } else {
            Err(ConfigFault::MissingPath)
        },
    }
}

/// What the boot gives before a configuration file is read.
#[derive(Debug)]
pub struct BootConfig {
    pub config: AgentConfig,
    /// The configuration file to be read.
    pub file: Option<String>,
}

/// The path of a `BootConfig` over sequences.
pub open spec fn path_view(file: Option<String>) -> Option<Seq<char>> {
    match file {
        Some(p) => Some(p@),
        None => None,
    }
}

impl BootConfig {
    fn take(&mut self, param: &[char]) -> (r: Result<(), ConfigError>)
        ensures
            match after_param(
                KernelView { config: old(self).config@, file: path_view(old(self).file) },
                param@,
            ) {
                Ok(s) => r is Ok && final(self).config@ == s.config && path_view(final(self).file)
                    == s.file,
                Err(f) => r matches Err(e) && e@ == f,
            },
    {
        let (k, v) = match split_once(param, '=') {
            Some(kv) => kv,
            None => (crate::text::copy_chars(param), Vec::new()),
        };
        proof {
            assert((k@, v@) == key_value(param@));
        }
        let key = string_of(k.as_slice());
        let value = string_of(v.as_slice());
        let key_str = key.as_str();
        let val = value.as_str();
        if str_eq(key_str, "agent.trace") {
            if v.len() == 0 || str_eq(val, "true") || str_eq(val, "1") {
                self.config.tracing = true;
            } else if str_eq(val, "false") || str_eq(val, "0") {
                self.config.tracing = false;
            } else {
                return Err(ConfigError::InvalidTrace);
            }
        } else if str_eq(key_str, "agent.log") {
            match log_level(val) {
                Ok(l) => {
                    self.config.log_level = l;
                },
                Err(e) => {
                    return Err(e);
                },
            }
        } else if str_eq(key_str, "agent.hotplug_timeout") {
            match read_u64(val) {
                Ok(secs) => {
                    self.config.hotplug_timeout = Span { secs, nanos: 0 };
                },
                Err(words) => {
                    return Err(ConfigError::InvalidNumber(words));
                },
            }
        } else if str_eq(key_str, "agent.log_vport") {
            match read_u32(val) {
                Ok(n) => {
                    self.config.log_vport = n;
                },
                Err(words) => {
                    return Err(ConfigError::InvalidNumber(words));
                },
            }
        } else if str_eq(key_str, "agent.container_pipe_size") {
            match read_i32(val) {
                Ok(n) => {
                    self.config.container_pipe_size = n;
                },
                Err(words) => {
                    return Err(ConfigError::InvalidNumber(words));
                },
            }
        } else if str_eq(key_str, "agent.server_addr") {
            if v.len() == 0 {
                return Err(ConfigError::EmptyAddress);
            }
            self.config.server_addr = value;
        } else if str_eq(key_str, "agent.config_file") {
            if v.len() == 0 {
                return Err(ConfigError::EmptyPath);
            }
            self.file = Some(value);
        } else if str_eq(key_str, "cgroup_no_v1") {
            self.config.cgroup_no_v1 = value;
        } else if str_eq(key_str, "systemd.unified_cgroup_hierarchy") {
            if str_eq(val, "1") || str_eq(val, "true") {
                self.config.unified_cgroup_hierarchy = true;
            } else if str_eq(val, "0") || str_eq(val, "false") {
                self.config.unified_cgroup_hierarchy = false;
            } else {
                return Err(ConfigError::InvalidHierarchy);
            }
        } else {
            let prefix = chars_of("agent.");
            if starts_with(k.as_slice(), prefix.as_slice()) {
                return Err(ConfigError::UnsupportedOption(key));
            }
        }
        Ok(())
    }
}

fn find_flag(args: &Vec<String>) -> (r: Option<usize>)
    ensures
        match r {
            Some(i) => flag_at(args@) == Some(i as int) && i < args.len(),
            None => flag_at(args@) is None,
        },
{
    let mut i: usize = 0;
    let mut found: Option<usize> = None;
    proof {
        assert(args@.take(0) =~= Seq::<String>::empty());
    }
    while i < args.len()
        invariant
            i <= args.len(),
            match found {
                Some(k) => flag_at(args@.take(i as int)) == Some(k as int) && k < i,
                None => flag_at(args@.take(i as int)) is None,
            },
        decreases args.len() - i,
    {
        proof {
            assert(args@.take(i + 1).drop_last() =~= args@.take(i as int));
            assert(args@.take(i + 1).last() == args@[i as int]);
        }
        if found.is_none() && (str_eq(args[i].as_str(), "--config") || str_eq(
            args[i].as_str(),
            "-c",
        )) {
            found = Some(i);
        }
        i += 1;
    }
    proof {
        assert(args@.take(args@.len() as int) =~= args@);
    }
    found
}

impl AgentConfig {
    /// Checks a configuration as a whole.
    pub fn validate(&self) -> (r: Result<(), ConfigError>)
        ensures
            match r {
                Ok(_) => fault_of(self@) is None,
                Err(e) => fault_of(self@) == Some(e@),
            },
    {
        if self.hotplug_timeout.secs == 0 && self.hotplug_timeout.nanos == 0 {
            return Err(ConfigError::ZeroTimeout);
        }
        if self.container_pipe_size < 0 {
            return Err(ConfigError::NegativePipeSize);
        }
        if self.server_addr.as_str().is_empty() {
            return Err(ConfigError::NoAddress);
        }
        Ok(())
    }

    /// The configuration that a file gives.
    pub fn from_file(file: ConfigFile) -> (r: Result<AgentConfig, ConfigError>)
        ensures
            match r {
                Ok(c) => file_config(file) == Ok::<ConfigView, ConfigFault>(c@),
                Err(e) => file_config(file) == Err::<ConfigView, ConfigFault>(e@),
            },
    {
        let mut config = AgentConfig::default();
        if let Some(name) = &file.log_level {
            match log_level(name.as_str()) {
                Ok(l) => {
                    config.log_level = l;
                },
                Err(e) => {
                    return Err(e);
                },
            }
        }
        if let Some(v) = file.tracing {
            config.tracing = v;
        }
        if let Some(v) = file.hotplug_timeout {
            config.hotplug_timeout = v;
        }
        if let Some(v) = file.log_vport {
            config.log_vport = v;
        }
        if let Some(v) = file.container_pipe_size {
            config.container_pipe_size = v;
        }
        if let Some(v) = file.server_addr {
            config.server_addr = v;
        }
        if let Some(v) = file.cgroup_no_v1 {
            config.cgroup_no_v1 = v;
        }
        if let Some(v) = file.unified_cgroup_hierarchy {
            config.unified_cgroup_hierarchy = v;
        }
        match config.validate() {
            Ok(_) => Ok(config),
            Err(e) => Err(e),
        }
    }

    /// Reads the kernel command line and the arguments of the agent. Every parameter is
    /// checked, whatever configuration file is chosen.
    pub fn from_cmdline(cmdline: &str, args: &Vec<String>) -> (r: Result<BootConfig, ConfigError>)
        ensures
            match r {
                Ok(b) => kernel_config(cmdline@) is Ok && b.config@ == kernel_config(
                    cmdline@,
                )->Ok_0.config && chosen_path(args@, kernel_config(cmdline@)->Ok_0.file) == Ok::<
                    Option<Seq<char>>,
                    ConfigFault,
                >(path_view(b.file)),
                Err(e) => match kernel_config(cmdline@) {
                    Err(f) => e@ == f,
                    Ok(s) => chosen_path(args@, s.file) == Err::<Option<Seq<char>>, ConfigFault>(
                        e@,
                    ),
                },
            },
    {
        let text = chars_of(cmdline);
        let params = words(text.as_slice(), Sep::AsciiWhite);
        let ghost all = fields(params@);
        let mut boot = BootConfig { config: AgentConfig::default(), file: None };
        let mut i: usize = 0;
        proof {
            assert(all.take(0) =~= Seq::<Seq<char>>::empty());
        }
        while i < params.len()
            invariant
                i <= params.len(),
                all == fields(params@),
                all == words_on(cmdline@, Sep::AsciiWhite),
                after_params(all.take(i as int)) == Ok::<KernelView, ConfigFault>(
                    KernelView { config: boot.config@, file: path_view(boot.file) },
                ),
            decreases params.len() - i,
        {
            proof {
                assert(all.take(i + 1).drop_last() =~= all.take(i as int));
                assert(all.take(i + 1).last() == params@[i as int]@);
            }
            if let Err(e) = boot.take(params[i].as_slice()) {
                proof {
                    lemma_error_stays(all, i + 1);
                }
                return Err(e);
            }
            i += 1;
        }
        proof {
            assert(all.take(all.len() as int) =~= all);
        }
        if let Err(e) = boot.config.validate() {
            return Err(e);
        }
        if let Some(at) = find_flag(args) {
            if at + 1 < args.len() {
                boot.file = Some(args[at + 1].clone());
            } else {
                return Err(ConfigError::MissingPath);
            }
        }
        Ok(boot)
    }
}

proof fn lemma_error_stays(params: Seq<Seq<char>>, n: int)
    requires
        0 <= n <= params.len(),
        after_params(params.take(n)) is Err,
    ensures
        after_params(params) == after_params(params.take(n)),
    decreases params.len(),
{
    if n < params.len() {
        assert(params.drop_last().take(n) =~= params.take(n));
        lemma_error_stays(params.drop_last(), n);
    } else {
        assert(params.take(n) =~= params);
    }
}

/// Whether a variable of the environment is meant for the agent.
pub open spec fn is_agent_variable(key: Seq<char>) -> bool {
    "KATA_AGENT_"@.is_prefix_of(key)
}

/// Names and values of variables.
pub open spec fn variable_views(v: Seq<(String, String)>) -> Seq<(Seq<char>, Seq<char>)> {
    v.map_values(|e: (String, String)| (e.0@, e.1@))
}

/// Picks the variables of an environment that are meant for the agent.
pub fn agent_variables(vars: &Vec<(String, String)>) -> (r: Vec<(String, String)>)
    ensures
        variable_views(r@) == variable_views(vars@).filter(
            |e: (Seq<char>, Seq<char>)| is_agent_variable(e.0),
        ),
{
    let ghost all = variable_views(vars@);
    let ghost keep = |e: (Seq<char>, Seq<char>)| is_agent_variable(e.0);
    let prefix = chars_of("KATA_AGENT_");
    let mut out: Vec<(String, String)> = Vec::new();
    let mut i: usize = 0;
    reveal(Seq::filter);
    proof {
        assert(variable_views(out@) =~= all.take(0).filter(keep));
    }
    while i < vars.len()
        invariant
            i <= vars.len(),
            prefix@ == "KATA_AGENT_"@,
            all == variable_views(vars@),
            keep == (|e: (Seq<char>, Seq<char>)| is_agent_variable(e.0)),
            variable_views(out@) == all.take(i as int).filter(keep),
        decreases vars.len() - i,
    {
        reveal(Seq::filter);
        proof {
            assert(all.take(i + 1).drop_last() =~= all.take(i as int));
            assert(all.take(i + 1).last() == (vars@[i as int].0@, vars@[i as int].1@));
        }
        let key = chars_of(vars[i].0.as_str());
        if starts_with(&key, &prefix) {
            let ghost was = variable_views(out@);
            let e = (vars[i].0.clone(), vars[i].1.clone());
            out.push(e);
            proof {
                assert(variable_views(out@) =~= was.push((e.0@, e.1@)));
            }
        }
        i += 1;
    }
    proof {
        assert(all.take(all.len() as int) =~= all);
    }
    out
}

/// What the environment makes of a configuration: the configuration up to the first
/// variable that fails, and the error of that one.
pub open spec fn after_env(c: ConfigView, vars: Seq<(String, String)>) -> (
    ConfigView,
    Option<ConfigFault>,
)
    decreases vars.len(),
{
    if vars.len() == 0 {
        (c, None)
    } else {
        let (before, failed) = after_env(c, vars.drop_last());
        let (key, value) = vars.last();
        if failed is Some {
            (before, failed)
        } else if key@ == "KATA_AGENT_SERVER_ADDR"@ {
            (ConfigView { server_addr: value@, ..before }, None)
        } else if key@ == "KATA_AGENT_LOG_LEVEL"@ {
            match level_of(value@) {
                Some(log_level) => (ConfigView { log_level, ..before }, None),
                None => (before, Some(ConfigFault::InvalidLevel)),
            }
        } else {
            (before, Some(ConfigFault::UnsupportedVariable(key@)))
        }
    }
}

proof fn lemma_env_error_stays(c: ConfigView, vars: Seq<(String, String)>, n: int)
    requires
        0 <= n <= vars.len(),
        after_env(c, vars.take(n)).1 is Some,
    ensures
        after_env(c, vars) == after_env(c, vars.take(n)),
    decreases vars.len(),
{
    if n < vars.len() {
        assert(vars.drop_last().take(n) =~= vars.take(n));
        lemma_env_error_stays(c, vars.drop_last(), n);
    } else {
        assert(vars.take(n) =~= vars);
    }
}

impl AgentConfig {
    /// Takes the variables of the agent into the configuration.
    pub fn apply_env(&mut self, vars: &Vec<(String, String)>) -> (r: Result<(), ConfigError>)
        ensures
            final(self)@ == after_env(old(self)@, vars@).0,
            match r {
                Ok(_) => after_env(old(self)@, vars@).1 is None && fault_of(final(self)@) is None,
                Err(e) => match after_env(old(self)@, vars@).1 {
                    Some(f) => e@ == f,
                    None => fault_of(final(self)@) == Some(e@),
                },
            },
    {
        let ghost c = self@;
        let mut i: usize = 0;
        proof {
            assert(vars@.take(0) =~= Seq::<(String, String)>::empty());
        }
        while i < vars.len()
            invariant
                i <= vars.len(),
                c == old(self)@,
                after_env(c, vars@.take(i as int)) == (self@, None::<ConfigFault>),
            decreases vars.len() - i,
        {
            proof {
                assert(vars@.take(i + 1).drop_last() =~= vars@.take(i as int));
                assert(vars@.take(i + 1).last() == vars@[i as int]);
            }
            let key = vars[i].0.as_str();
            if str_eq(key, "KATA_AGENT_SERVER_ADDR") {
                self.server_addr = vars[i].1.clone();
            } else if str_eq(key, "KATA_AGENT_LOG_LEVEL") {
                match log_level(vars[i].1.as_str()) {
                    Ok(l) => {
                        self.log_level = l;
                    },
                    Err(e) => {
                        proof {
                            lemma_env_error_stays(c, vars@, i + 1);
                        }
                        return Err(e);
                    },
                }
            } else {
                proof {
                    lemma_env_error_stays(c, vars@, i + 1);
                }
                return Err(ConfigError::UnsupportedVariable(vars[i].0.clone()));
            }
            i += 1;
        }
        proof {
            assert(vars@.take(vars@.len() as int) =~= vars@);
        }
        self.validate()
    }
}

/// The configuration in the end: a file takes the place of the whole command line, and
/// the environment comes last.
pub open spec fn final_config(
    boot: ConfigView,
    file: Option<ConfigFile>,
    vars: Seq<(String, String)>,
) -> Result<ConfigView, ConfigFault> {
    let base = match file {
        Some(f) => file_config(f),
        None => Ok(boot),
    };
    match base {
        Err(f) => Err(f),
        Ok(c) => match after_env(c, vars) {
            (_, Some(f)) => Err(f),
            (d, None) => match fault_of(d) {
                Some(f) => Err(f),
                None => Ok(d),
            },
        },
    }
}

impl BootConfig {
    /// Ends the configuration with the file that was read and the variables of the agent.
    pub fn finish(self, file: Option<ConfigFile>, vars: &Vec<(String, String)>) -> (r: Result<
        AgentConfig,
        ConfigError,
    >)
        ensures
            match r {
                Ok(c) => final_config(self.config@, file, vars@) == Ok::<ConfigView, ConfigFault>(
                    c@,
                ),
                Err(e) => final_config(self.config@, file, vars@) == Err::<
                    ConfigView,
                    ConfigFault,
                >(e@),
            },
    {
        let mut config = match file {
            Some(f) => match AgentConfig::from_file(f) {
                Ok(c) => c,
                Err(e) => {
                    return Err(e);
                },
            },
            None => self.config,
        };
        match config.apply_env(vars) {
            Ok(_) => Ok(config),
            Err(e) => Err(e),
        }
    }
}

/// A command line with an option of the agent that it does not know is refused, wherever
/// the option stands and whatever stands around it.
pub proof fn law_unsupported_options_fail(cmdline: Seq<char>, i: int)
    requires
        0 <= i < words_on(cmdline, Sep::AsciiWhite).len(),
        is_unsupported(words_on(cmdline, Sep::AsciiWhite)[i]),
    ensures
        kernel_config(cmdline) is Err,
{
    let params = words_on(cmdline, Sep::AsciiWhite);
    let upto = params.take(i + 1);
    assert(upto.last() == params[i]);
    assert(after_params(upto) is Err);
    lemma_error_stays(params, i + 1);
}

/// A configuration that was accepted is valid.
pub proof fn law_accepted_configuration_is_valid(
    boot: ConfigView,
    file: Option<ConfigFile>,
    vars: Seq<(String, String)>,
)
    requires
        final_config(boot, file, vars) is Ok,
    ensures
        fault_of(final_config(boot, file, vars)->Ok_0) is None,
{
}

/// Where a configuration file is given, the options of the command line count for
/// nothing but their being accepted.
pub proof fn law_file_replaces_command_line(
    one: ConfigView,
    another: ConfigView,
    file: ConfigFile,
    vars: Seq<(String, String)>,
)
    ensures
        final_config(one, Some(file), vars) == final_config(another, Some(file), vars),
{
}

} // verus!
