//! How the agent is configured, and the hypervisor beneath it.
use vstd::prelude::*;

use crate::agent_config::{
    after_env, after_param, after_params, chosen_path, default_config, fault_of, file_config,
    final_config, flag_at, i32_fault, is_agent_variable, kernel_config, key_value, level_of,
    u32_fault, u64_fault, ConfigFault, ConfigFile, ConfigView, KernelView, LogLevel, Span,
};
use crate::text::{int_of, uint_of, words_on, Sep};

verus! {

/// The lengths of the names of options, and the letters in which those of one length differ.
proof fn lemma_option_letters()
    ensures
        "agent.trace"@.len() == 11,
        "agent.log"@.len() == 9,
        "agent.hotplug_timeout"@.len() == 21,
        "agent.log_vport"@.len() == 15,
        "agent.container_pipe_size"@.len() == 25,
        "agent.server_addr"@.len() == 17,
        "agent.config_file"@.len() == 17,
        "cgroup_no_v1"@.len() == 12,
        "systemd.unified_cgroup_hierarchy"@.len() == 32,
        "agent.server_addr"@[6] == 's',
        "agent.config_file"@[6] == 'c',
{
    reveal_strlit("agent.trace");
    reveal_strlit("agent.log");
    reveal_strlit("agent.hotplug_timeout");
    reveal_strlit("agent.log_vport");
    reveal_strlit("agent.container_pipe_size");
    reveal_strlit("agent.server_addr");
    reveal_strlit("agent.config_file");
    reveal_strlit("cgroup_no_v1");
    reveal_strlit("systemd.unified_cgroup_hierarchy");
}

/// The lengths of the names of levels, and the letters in which those of one length differ.
proof fn lemma_level_letters()
    ensures
        "fatal"@.len() == 5,
        "panic"@.len() == 5,
        "critical"@.len() == 8,
        "error"@.len() == 5,
        "warn"@.len() == 4,
        "warning"@.len() == 7,
        "info"@.len() == 4,
        "debug"@.len() == 5,
        "trace"@.len() == 5,
        "fatal"@[0] == 'f',
        "panic"@[0] == 'p',
        "error"@[0] == 'e',
        "warn"@[0] == 'w',
        "info"@[0] == 'i',
        "debug"@[0] == 'd',
        "trace"@[0] == 't',
{
    reveal_strlit("fatal");
    reveal_strlit("panic");
    reveal_strlit("critical");
    reveal_strlit("error");
    reveal_strlit("warn");
    reveal_strlit("warning");
    reveal_strlit("info");
    reveal_strlit("debug");
    reveal_strlit("trace");
}

/// The key of a parameter is what stands in front of its first equals sign, and its value what
/// stands behind it; a parameter without one has no value.
pub proof fn law_how_a_parameter_is_parted(key: Seq<char>, value: Seq<char>)
    requires
        !key.contains('='),
    ensures
        key_value(key.push('=') + value) == (key, value),
        key_value(key) == (key, Seq::<char>::empty()),
{
    super::words::law_a_text_is_parted_at_its_first_separator(key, value, '=');
}

/// Which level a name stands for.
pub proof fn law_which_level_a_name_is(name: Seq<char>)
    ensures
        level_of("fatal"@) == Some(LogLevel::Critical),
        level_of("panic"@) == Some(LogLevel::Critical),
        level_of("critical"@) == Some(LogLevel::Critical),
        level_of("error"@) == Some(LogLevel::Error),
        level_of("warn"@) == Some(LogLevel::Warning),
        level_of("warning"@) == Some(LogLevel::Warning),
        level_of("info"@) == Some(LogLevel::Info),
        level_of("debug"@) == Some(LogLevel::Debug),
        level_of("trace"@) == Some(LogLevel::Trace),
        name != "fatal"@ && name != "panic"@ && name != "critical"@ && name != "error"@ && name
            != "warn"@ && name != "warning"@ && name != "info"@ && name != "debug"@ && name
            != "trace"@ ==> level_of(name) is None,
{
    lemma_level_letters();
}

/// The configuration of which nothing is said.
pub proof fn law_what_is_configured_by_default()
    ensures
        ({
            let d = default_config();
            &&& !d.tracing
            &&& d.log_level == LogLevel::Info
            &&& d.hotplug_timeout == (Span { secs: 3, nanos: 0 })
            &&& d.log_vport == 0
            &&& d.container_pipe_size == 0
            &&& d.server_addr == "vsock://-1:1024"@
            &&& d.cgroup_no_v1.len() == 0
            &&& !d.unified_cgroup_hierarchy
        }),
{
}

/// Whether two configurations agree in everything but what one option sets.
pub open spec fn same_but(a: ConfigView, b: ConfigView, key: Seq<char>) -> bool {
    &&& key != "agent.trace"@ ==> a.tracing == b.tracing
    &&& key != "agent.log"@ ==> a.log_level == b.log_level
    &&& key != "agent.hotplug_timeout"@ ==> a.hotplug_timeout == b.hotplug_timeout
    &&& key != "agent.log_vport"@ ==> a.log_vport == b.log_vport
    &&& key != "agent.container_pipe_size"@ ==> a.container_pipe_size == b.container_pipe_size
    &&& key != "agent.server_addr"@ ==> a.server_addr == b.server_addr
    &&& key != "cgroup_no_v1"@ ==> a.cgroup_no_v1 == b.cgroup_no_v1
    &&& key != "systemd.unified_cgroup_hierarchy"@ ==> a.unified_cgroup_hierarchy
        == b.unified_cgroup_hierarchy
}

/// Whether a value says yes.
pub open spec fn is_yes(value: Seq<char>) -> bool {
    value == "true"@ || value == "1"@
}

/// Whether a value says no.
pub open spec fn is_no(value: Seq<char>) -> bool {
    value == "false"@ || value == "0"@
}

/// Every option sets what it is named after and nothing else.
pub proof fn law_each_option_sets_one_thing(s: KernelView, param: Seq<char>)
    requires
        after_param(s, param) is Ok,
    ensures
        ({
            let key = key_value(param).0;
            let after = after_param(s, param)->Ok_0;
            &&& same_but(after.config, s.config, key)
            &&& key != "agent.config_file"@ ==> after.file == s.file
        }),
{
    lemma_option_letters();
}

/// What the options of the kernel command line say: each value is taken as it is read, and
/// one that cannot be read is refused.
pub proof fn law_what_options_say(s: KernelView, param: Seq<char>)
    ensures
        ({
            let (key, value) = key_value(param);
            let r = after_param(s, param);
            let yes = is_yes(value);
            let no = !yes && is_no(value);
            &&& key == "agent.trace"@ && (yes || value.len() == 0) ==> r is Ok
                && r->Ok_0.config.tracing
            &&& key == "agent.trace"@ && no && value.len() > 0 ==> r is Ok
                && !r->Ok_0.config.tracing
            &&& key == "agent.trace"@ && !yes && !no && value.len() > 0 ==> r == Err::<
                KernelView,
                ConfigFault,
            >(ConfigFault::InvalidTrace)
            &&& key == "agent.log"@ && level_of(value) is Some ==> r is Ok
                && r->Ok_0.config.log_level == level_of(value)->0
            &&& key == "agent.log"@ && level_of(value) is None ==> r == Err::<
                KernelView,
                ConfigFault,
            >(ConfigFault::InvalidLevel)
            &&& key == "agent.server_addr"@ && value.len() > 0 ==> r is Ok
                && r->Ok_0.config.server_addr == value
            &&& key == "agent.server_addr"@ && value.len() == 0 ==> r == Err::<
                KernelView,
                ConfigFault,
            >(ConfigFault::EmptyAddress)
            &&& key == "agent.config_file"@ && value.len() > 0 ==> r is Ok && r->Ok_0.file == Some(
                value,
            )
            &&& key == "agent.config_file"@ && value.len() == 0 ==> r == Err::<
                KernelView,
                ConfigFault,
            >(ConfigFault::EmptyPath)
            &&& key == "cgroup_no_v1"@ ==> r is Ok && r->Ok_0.config.cgroup_no_v1 == value
            &&& key == "systemd.unified_cgroup_hierarchy"@ && yes ==> r is Ok
                && r->Ok_0.config.unified_cgroup_hierarchy
            &&& key == "systemd.unified_cgroup_hierarchy"@ && no ==> r is Ok
                && !r->Ok_0.config.unified_cgroup_hierarchy
            &&& key == "systemd.unified_cgroup_hierarchy"@ && !yes && !no ==> r == Err::<
                KernelView,
                ConfigFault,
            >(ConfigFault::InvalidHierarchy)
        }),
{
    lemma_option_letters();
}

/// What the options with numbers say.
pub proof fn law_what_options_with_numbers_say(s: KernelView, param: Seq<char>)
    ensures
        ({
            let (key, value) = key_value(param);
            let r = after_param(s, param);
            let wide = uint_of(value, 10, 0xffff_ffff_ffff_ffff);
            let narrow = uint_of(value, 10, 0xffff_ffff);
            let signed = int_of(value, -0x8000_0000, 0x7fff_ffff);
            &&& key == "agent.hotplug_timeout"@ && wide is Some ==> r is Ok
                && r->Ok_0.config.hotplug_timeout.secs == wide->0
                && r->Ok_0.config.hotplug_timeout.nanos == 0
            &&& key == "agent.hotplug_timeout"@ && wide is None ==> r == Err::<
                KernelView,
                ConfigFault,
            >(ConfigFault::InvalidNumber(u64_fault(value)))
            &&& key == "agent.log_vport"@ && narrow is Some ==> r is Ok && r->Ok_0.config.log_vport
                == narrow->0
            &&& key == "agent.log_vport"@ && narrow is None ==> r == Err::<KernelView, ConfigFault>(
                ConfigFault::InvalidNumber(u32_fault(value)),
            )
            &&& key == "agent.container_pipe_size"@ && signed is Some ==> r is Ok
                && r->Ok_0.config.container_pipe_size == signed->0
            &&& key == "agent.container_pipe_size"@ && signed is None ==> r == Err::<
                KernelView,
                ConfigFault,
            >(ConfigFault::InvalidNumber(i32_fault(value)))
        }),
{
    lemma_option_letters();
}

/// Any other parameter is refused where it is meant for the agent, and passed over where it is
/// not.
pub proof fn law_what_becomes_of_other_parameters(s: KernelView, param: Seq<char>)
    requires
        ({
            let key = key_value(param).0;
            &&& key != "agent.trace"@ && key != "agent.log"@ && key != "agent.hotplug_timeout"@
            &&& key != "agent.log_vport"@ && key != "agent.container_pipe_size"@
            &&& key != "agent.server_addr"@ && key != "agent.config_file"@
            &&& key != "cgroup_no_v1"@ && key != "systemd.unified_cgroup_hierarchy"@
        }),
    ensures
        ({
            let key = key_value(param).0;
            let meant = key.len() >= 6 && key.take(6) == "agent."@;
            &&& meant ==> after_param(s, param) == Err::<KernelView, ConfigFault>(
                ConfigFault::UnsupportedOption(key),
            )
            &&& !meant ==> after_param(s, param) == Ok::<KernelView, ConfigFault>(s)
        }),
{
    reveal_strlit("agent.");
    let key = key_value(param).0;
    if "agent."@.is_prefix_of(key) {
        assert(key.take(6) =~= "agent."@);
    }
    if key.len() >= 6 && key.take(6) == "agent."@ {
        assert(key.subrange(0, 6) =~= key.take(6));
        assert("agent."@.is_prefix_of(key));
    }
}

/// Parameters are taken in order, from the defaults on, and the first that is refused refuses
/// the command line; what comes out must hold together.
pub proof fn law_parameters_are_taken_in_order(params: Seq<Seq<char>>, p: Seq<char>, line: Seq<char>)
    ensures
        after_params(Seq::empty()) == Ok::<KernelView, ConfigFault>(
            KernelView { config: default_config(), file: None },
        ),
        after_params(params) is Ok ==> after_params(params.push(p)) == after_param(
            after_params(params)->Ok_0,
            p,
        ),
        after_params(params) is Err ==> after_params(params.push(p)) == after_params(params),
        ({
            let r = after_params(words_on(line, Sep::AsciiWhite));
            &&& r is Err ==> kernel_config(line) == r
            &&& r is Ok && fault_of(r->Ok_0.config) is None ==> kernel_config(line) == r
            &&& r is Ok && fault_of(r->Ok_0.config) is Some ==> kernel_config(line) == Err::<
                KernelView,
                ConfigFault,
            >(fault_of(r->Ok_0.config)->0)
        }),
{
    assert(params.push(p).drop_last() =~= params);
}

/// What a configuration must have: a timeout that is not 0, a pipe size that is not negative
/// and an address.
pub proof fn law_what_a_configuration_must_have(c: ConfigView)
    ensures
        fault_of(c) == if c.hotplug_timeout == (Span { secs: 0, nanos: 0 }) {
            Some(ConfigFault::ZeroTimeout)
        } else if c.container_pipe_size < 0 {
            Some(ConfigFault::NegativePipeSize)
        } else if c.server_addr.len() == 0 {
            Some(ConfigFault::NoAddress)
        } else {
            None
        },
{
}

/// A file sets what it says, field by field, and leaves the rest at its default.
pub proof fn law_what_a_file_sets(f: ConfigFile)
    ensures
        f.log_level is Some && level_of(f.log_level->0@) is None ==> file_config(f) == Err::<
            ConfigView,
            ConfigFault,
        >(ConfigFault::InvalidLevel),
        file_config(f) matches Ok(c) ==> {
            &&& fault_of(c) is None
            &&& c.tracing == (f.tracing == Some(true))
            &&& f.log_level is Some ==> level_of(f.log_level->0@) == Some(c.log_level)
            &&& f.log_level is None ==> c.log_level == LogLevel::Info
            &&& f.hotplug_timeout is Some ==> c.hotplug_timeout == f.hotplug_timeout->0
            &&& f.hotplug_timeout is None ==> c.hotplug_timeout == (Span { secs: 3, nanos: 0 })
            &&& f.log_vport is Some ==> c.log_vport == f.log_vport->0
            &&& f.log_vport is None ==> c.log_vport == 0
            &&& f.container_pipe_size is Some ==> c.container_pipe_size == f.container_pipe_size->0
            &&& f.container_pipe_size is None ==> c.container_pipe_size == 0
            &&& f.server_addr is Some ==> c.server_addr == f.server_addr->0@
            &&& f.server_addr is None ==> c.server_addr == "vsock://-1:1024"@
            &&& f.cgroup_no_v1 is Some ==> c.cgroup_no_v1 == f.cgroup_no_v1->0@
            &&& f.cgroup_no_v1 is None ==> c.cgroup_no_v1.len() == 0
            &&& c.unified_cgroup_hierarchy == (f.unified_cgroup_hierarchy == Some(true))
        },
{
}

/// The file is the one behind the first flag; a flag at the end is an error, and without a
/// flag the file of the command line counts.
pub proof fn law_which_file_is_read(args: Seq<String>, file: Option<Seq<char>>, i: int)
    requires
        0 <= i <= args.len(),
        forall|k: int|
            0 <= k < i ==> (#[trigger] args[k])@ != "--config"@ && args[k]@ != "-c"@,
        i < args.len() ==> args[i]@ == "--config"@ || args[i]@ == "-c"@,
    ensures
        chosen_path(args, file) == if i == args.len() {
            Ok::<Option<Seq<char>>, ConfigFault>(file)
        } else if i + 1 < args.len() {
            Ok::<Option<Seq<char>>, ConfigFault>(Some(args[i + 1]@))
        } else {
            Err::<Option<Seq<char>>, ConfigFault>(ConfigFault::MissingPath)
        },
{
    lemma_flag_at(args, i);
}

proof fn lemma_flag_at(args: Seq<String>, i: int)
    requires
        0 <= i <= args.len(),
        forall|k: int|
            0 <= k < i ==> (#[trigger] args[k])@ != "--config"@ && args[k]@ != "-c"@,
        i < args.len() ==> args[i]@ == "--config"@ || args[i]@ == "-c"@,
    ensures
        flag_at(args) == if i < args.len() {
            Some(i)
        } else {
            None
        },
    decreases args.len(),
{
    if args.len() > 0 {
        let front = args.drop_last();
        if i < args.len() {
            assert forall|k: int| 0 <= k < i implies (#[trigger] front[k])@ != "--config"@
                && front[k]@ != "-c"@ by {
                assert(front[k] == args[k]);
            }
            lemma_flag_at(front, i);
        } else {
            assert forall|k: int| 0 <= k < i - 1 implies (#[trigger] front[k])@ != "--config"@
                && front[k]@ != "-c"@ by {
                assert(front[k] == args[k]);
            }
            lemma_flag_at(front, i - 1);
            assert(args[i - 1]@ != "--config"@ && args[i - 1]@ != "-c"@);
        }
    }
}

/// Variables are taken in order until one fails: one sets the address and one the level, and
/// any other is refused. What was set before stays.
pub proof fn law_what_variables_set(
    c: ConfigView,
    vars: Seq<(String, String)>,
    v: (String, String),
)
    requires
        after_env(c, vars).1 is None,
    ensures
        after_env(c, Seq::empty()) == (c, None::<ConfigFault>),
        ({
            let b = after_env(c, vars).0;
            let r = after_env(c, vars.push(v));
            &&& v.0@ == "KATA_AGENT_SERVER_ADDR"@ ==> r.1 is None && r.0.server_addr == v.1@
                && same_but(r.0, b, "agent.server_addr"@)
            &&& v.0@ == "KATA_AGENT_LOG_LEVEL"@ && level_of(v.1@) is Some ==> r.1 is None
                && r.0.log_level == level_of(v.1@)->0 && same_but(r.0, b, "agent.log"@)
            &&& v.0@ == "KATA_AGENT_LOG_LEVEL"@ && level_of(v.1@) is None ==> r == (
                b,
                Some(ConfigFault::InvalidLevel),
            )
            &&& v.0@ != "KATA_AGENT_SERVER_ADDR"@ && v.0@ != "KATA_AGENT_LOG_LEVEL"@ ==> r == (
                b,
                Some(ConfigFault::UnsupportedVariable(v.0@)),
            )
        }),
{
    reveal_strlit("KATA_AGENT_SERVER_ADDR");
    reveal_strlit("KATA_AGENT_LOG_LEVEL");
    assert("KATA_AGENT_SERVER_ADDR"@.len() == 22 && "KATA_AGENT_LOG_LEVEL"@.len() == 20);
    assert(vars.push(v).drop_last() =~= vars);
}

/// Which variables are meant for the agent: those whose names begin with its own.
pub proof fn law_which_variables_are_meant_for_the_agent(rest: Seq<char>, key: Seq<char>)
    ensures
        is_agent_variable("KATA_AGENT_"@ + rest),
        is_agent_variable(key) ==> key.len() >= 11 && key.take(11) == "KATA_AGENT_"@,
{
    reveal_strlit("KATA_AGENT_");
    let k = "KATA_AGENT_"@ + rest;
    assert("KATA_AGENT_"@ =~= k.subrange(0, 11));
    assert("KATA_AGENT_"@.is_prefix_of(k));
    if is_agent_variable(key) {
        assert(key.take(11) =~= "KATA_AGENT_"@);
    }
}

/// The configuration in the end comes from the file where there is one, else from the command
/// line; the variables change it, and what comes out must hold together.
pub proof fn law_where_a_configuration_comes_from(
    boot: ConfigView,
    file: Option<ConfigFile>,
    vars: Seq<(String, String)>,
)
    ensures
        ({
            let base = match file {
                Some(f) => file_config(f),
                None => Ok::<ConfigView, ConfigFault>(boot),
            };
            &&& base is Err ==> final_config(boot, file, vars) == base
            &&& base is Ok && after_env(base->Ok_0, vars).1 is Some ==> final_config(
                boot,
                file,
                vars,
            ) == Err::<ConfigView, ConfigFault>(after_env(base->Ok_0, vars).1->0)
            &&& base is Ok && after_env(base->Ok_0, vars).1 is None && fault_of(
                after_env(base->Ok_0, vars).0,
            ) is None ==> final_config(boot, file, vars) == Ok::<ConfigView, ConfigFault>(
                after_env(base->Ok_0, vars).0,
            )
        }),
{
}

} // verus!
