//! The configuration of the agent.
use kata_fc::agent_config::{
    log_level, AgentConfig, ConfigError, ConfigFile, LogLevel, Span,
};
use std::convert::TryFrom;

const FILE: &str = "/etc/agent.toml";

fn number<T: TryFrom<i64>>(v: &toml::Value) -> Result<T, String> {
    let n = v.as_integer().ok_or("not a number")?;
    T::try_from(n).map_err(|_| "out of range".to_string())
}

fn text(v: &toml::Value) -> Result<String, String> {
    Ok(v.as_str().ok_or("not a text")?.to_string())
}

fn flag(v: &toml::Value) -> Result<bool, String> {
    Ok(v.as_bool().ok_or("not a flag")?)
}

/// Reads a configuration file, and refuses options that it does not know.
fn read_file(contents: &str) -> Result<ConfigFile, String> {
    let table: toml::Table = contents.parse().map_err(|_| "no table".to_string())?;
    let mut file = ConfigFile {
        tracing: None,
        log_level: None,
        hotplug_timeout: None,
        log_vport: None,
        container_pipe_size: None,
        server_addr: None,
        cgroup_no_v1: None,
        unified_cgroup_hierarchy: None,
    };
    for (key, v) in &table {
        match key.as_str() {
            "tracing" => file.tracing = Some(flag(v)?),
            "log_level" => file.log_level = Some(text(v)?),
            "hotplug_timeout" => {
                let t = v.as_table().ok_or("not a table")?;
                file.hotplug_timeout = Some(Span {
                    secs: number(&t["secs"])?,
                    nanos: number(&t["nanos"])?,
                });
            }
            "log_vport" => file.log_vport = Some(number(v)?),
            "container_pipe_size" => file.container_pipe_size = Some(number(v)?),
            "server_addr" => file.server_addr = Some(text(v)?),
            "cgroup_no_v1" => file.cgroup_no_v1 = Some(text(v)?),
            "unified_cgroup_hierarchy" => file.unified_cgroup_hierarchy = Some(flag(v)?),
            other => return Err(format!("unknown option {}", other)),
        }
    }
    Ok(file)
}

fn parse_file(contents: &str) -> Result<AgentConfig, String> {
    AgentConfig::from_file(read_file(contents)?).map_err(|e| e.message())
}

fn parse_with(contents: &str, args: Vec<String>, file: &str) -> Result<AgentConfig, String> {
    let boot = AgentConfig::from_cmdline(contents, &args).map_err(|e| e.message())?;
    let read = match &boot.file {
        Some(path) => {
            assert_eq!(path, FILE);
            Some(read_file(file)?)
        }
        None => None,
    };
    boot.finish(read, &vec![]).map_err(|e| e.message())
}

fn parse_kernel(contents: &str, args: Vec<String>) -> Result<AgentConfig, String> {
    parse_with(contents, args, "log_level = 'info'")
}

#[test]
fn tracing_can_be_enabled_explicitly() {
    assert!(!AgentConfig::default().tracing);
    assert!(parse_kernel("agent.trace=true", vec![]).unwrap().tracing);
    assert!(parse_file("tracing = true").unwrap().tracing);
    assert!(!parse_kernel("agent.trace=false", vec![]).unwrap().tracing);
    assert!(parse_kernel("agent.trace=invalid", vec![]).is_err());
}

#[test]
fn supported_boot_config() {
    let config = parse_kernel("console=ttyS0 root=/dev/vda agent.log_vport=1025 systemd.unified_cgroup_hierarchy=1 cgroup_no_v1=all agent.log=debug agent.hotplug_timeout=9 agent.container_pipe_size=4096", vec![]).unwrap();
    assert_eq!(config.log_vport, 1025);
    assert_eq!(config.log_level, LogLevel::Debug);
    assert_eq!(config.hotplug_timeout, Span { secs: 9, nanos: 0 });
    assert_eq!(config.container_pipe_size, 4096);
    assert!(config.unified_cgroup_hierarchy);
    assert_eq!(config.cgroup_no_v1, "all");
    assert_eq!(config.server_addr, "vsock://-1:1024");
}

#[test]
fn removed_options_fail_even_when_disabled_or_shadowed() {
    for key in [
        "debug_console",
        "devmode",
        "passfd_listener_port",
        "cdh_api_timeout",
        "image_pull_timeout",
        "launch_process_timeout",
        "guest_components_procs",
        "guest_components_rest_api",
        "secure_storage_integrity",
        "https_proxy",
        "no_proxy",
        "cdi_timeout",
        "visible_cdi_devices",
        "mem_agent_enable",
        "unknown",
    ] {
        for suffix in ["", "=0", "=false"] {
            let option = format!("agent.{}{}", key, suffix);
            for contents in [
                option.clone(),
                format!("agent.config_file={} {}", FILE, option),
                format!("{} agent.config_file={}", option, FILE),
            ] {
                assert!(parse_kernel(&contents, vec![]).is_err(), "{}", contents);
                assert!(parse_kernel(
                    &contents,
                    vec!["--config".to_string(), FILE.to_string()]
                )
                .is_err());
            }
        }
        assert!(parse_file(&format!("{} = false", key)).is_err());
    }
    for key in ["dev_mode", "policy_file", "debug_console_vport"] {
        assert!(parse_file(&format!("{} = false", key)).is_err());
    }
}

#[test]
fn file_and_environment_precedence() {
    let mut config = parse_with(
        "agent.log=debug",
        vec!["-c".to_string(), FILE.to_string()],
        "log_level = 'error'\ncontainer_pipe_size = 8192",
    )
    .unwrap();
    assert_eq!(config.log_level, LogLevel::Error);
    assert_eq!(config.container_pipe_size, 8192);
    config
        .apply_env(&vec![
            ("KATA_AGENT_LOG_LEVEL".to_string(), "trace".to_string()),
            (
                "KATA_AGENT_SERVER_ADDR".to_string(),
                "unix:///tmp/agent.sock".to_string(),
            ),
        ])
        .unwrap();
    assert_eq!(config.log_level, LogLevel::Trace);
    assert_eq!(config.server_addr, "unix:///tmp/agent.sock");
    for key in [
        "KATA_AGENT_TRACING",
        "KATA_AGENT_POLICY_FILE",
        "KATA_AGENT_UNKNOWN",
    ] {
        assert!(config
            .apply_env(&vec![(key.to_string(), "0".to_string())])
            .is_err());
    }
}

#[test]
fn malformed_configuration_fails() {
    for option in [
        "agent.log=bad",
        "agent.log_vport=-1",
        "agent.hotplug_timeout=0",
        "agent.hotplug_timeout=-1",
        "agent.container_pipe_size=-1",
        "agent.server_addr=",
        "agent.config_file=",
    ] {
        assert!(parse_kernel(option, vec![]).is_err(), "{}", option);
    }
    assert!(parse_kernel("", vec!["--config".to_string()]).is_err());
    for contents in [
        "log_level='bad'",
        "log_vport=-1",
        "container_pipe_size=-1",
        "hotplug_timeout={secs=0,nanos=0}",
        "server_addr=''",
    ] {
        assert!(parse_file(contents).is_err(), "{}", contents);
    }
}

fn fault(contents: &str) -> ConfigError {
    let boot = match AgentConfig::from_cmdline(contents, &vec![]) {
        Ok(boot) => boot,
        Err(e) => return e,
    };
    boot.finish(None, &vec![]).unwrap_err()
}

#[test]
fn each_fault_is_told_apart() {
    assert!(matches!(fault("agent.trace=x"), ConfigError::InvalidTrace));
    assert!(matches!(fault("agent.log=x"), ConfigError::InvalidLevel));
    assert!(matches!(
        fault("agent.log_vport=x"),
        ConfigError::InvalidNumber(_)
    ));
    for (contents, words) in [
        ("agent.log_vport=x", "invalid digit found in string"),
        ("agent.hotplug_timeout", "cannot parse integer from empty string"),
        (
            "agent.container_pipe_size=2147483648",
            "number too large to fit in target type",
        ),
    ] {
        assert_eq!(fault(contents).message(), words);
    }
    assert!(matches!(
        fault("agent.server_addr="),
        ConfigError::EmptyAddress
    ));
    assert!(matches!(
        fault("agent.config_file="),
        ConfigError::EmptyPath
    ));
    assert!(matches!(
        fault("systemd.unified_cgroup_hierarchy=maybe"),
        ConfigError::InvalidHierarchy
    ));
    assert!(matches!(
        fault("agent.nothing"),
        ConfigError::UnsupportedOption(_)
    ));
    assert!(matches!(
        fault("agent.hotplug_timeout=0"),
        ConfigError::ZeroTimeout
    ));
    assert!(matches!(
        fault("agent.container_pipe_size=-1"),
        ConfigError::NegativePipeSize
    ));
    let missing = AgentConfig::from_cmdline("", &vec!["-c".to_string()]).unwrap_err();
    assert!(matches!(missing, ConfigError::MissingPath));
    let mut config = AgentConfig::default();
    assert!(matches!(
        config.apply_env(&vec![("KATA_AGENT_X".to_string(), String::new())]),
        Err(ConfigError::UnsupportedVariable(_))
    ));
    config.server_addr = String::new();
    assert!(matches!(config.validate(), Err(ConfigError::NoAddress)));
}

#[test]
fn levels_have_names() {
    for (name, level) in [
        ("critical", LogLevel::Critical),
        ("error", LogLevel::Error),
        ("warn", LogLevel::Warning),
        ("info", LogLevel::Info),
        ("debug", LogLevel::Debug),
        ("trace", LogLevel::Trace),
    ] {
        assert_eq!(log_level(name).unwrap(), level);
    }
}

#[test]
fn only_variables_of_the_agent_are_picked() {
    let vars = vec![
        ("PATH".to_string(), "/bin".to_string()),
        ("KATA_AGENT_LOG_LEVEL".to_string(), "debug".to_string()),
        ("XKATA_AGENT_".to_string(), "no".to_string()),
        ("KATA_AGENT_".to_string(), "".to_string()),
    ];
    let picked = kata_fc::agent_config::agent_variables(&vars);
    assert_eq!(picked, vec![vars[1].clone(), vars[3].clone()]);
}
