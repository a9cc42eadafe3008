use crabbox::config::{
    generate_id, parse_memory, parse_memory_would_panic, resolve_hostname, ConfigError,
    ContainerConfig, RootfsProbe, TomlConfig, TomlContainer, TomlLimits,
};

const ROOTFS: &str = "/tmp/crabbox-test-rootfs";

fn valid_rootfs() -> RootfsProbe {
    RootfsProbe { exists: true, has_shell: true }
}

fn strings(values: &[&str]) -> Vec<String> {
    values.iter().map(|s| s.to_string()).collect()
}

/// The configuration that a TOML text describes, read through the `toml`
/// crate's table type.
fn toml_config(text: &str) -> TomlConfig {
    let table: toml::Table = text.parse().unwrap();
    let container = table["container"].as_table().unwrap();
    let limits = table.get("limits").map(|l| {
        let l = l.as_table().unwrap();
        TomlLimits {
            memory: l.get("memory").map(|v| v.as_str().unwrap().to_string()),
            cpus_bits: l.get("cpus").map(|v| v.as_float().unwrap().to_bits()),
            pids: l.get("pids").map(|v| v.as_integer().unwrap() as u64),
        }
    });
    TomlConfig {
        container: TomlContainer {
            rootfs: container["rootfs"].as_str().unwrap().to_string(),
            command: container["command"].as_str().unwrap().to_string(),
            args: container.get("args").map(|a| {
                a.as_array()
                    .unwrap()
                    .iter()
                    .map(|v| v.as_str().unwrap().to_string())
                    .collect()
            }),
            hostname: container.get("hostname").map(|v| v.as_str().unwrap().to_string()),
        },
        limits,
    }
}

#[test]
fn toml_config_parses_args_hostname_and_limits() {
    let toml = format!(
        r#"
[container]
rootfs = "{}"
command = "/bin/echo"
args = ["hello", "world"]
hostname = "mycontainer"

[limits]
memory = "64M"
cpus = 0.5
pids = 32
"#,
        ROOTFS
    );

    let config = toml_config(&toml);
    let runtime = config.into_runtime(valid_rootfs(), 0x7f3a2b1c).unwrap();

    assert_eq!(runtime.rootfs, ROOTFS);
    assert_eq!(runtime.command, "/bin/echo");
    assert_eq!(runtime.args, vec!["hello".to_string(), "world".to_string()]);
    assert_eq!(runtime.hostname, "mycontainer");
    assert_eq!(runtime.memory_limit, Some(64 * 1024 * 1024));
    assert_eq!(runtime.cpu_limit_bits.map(f64::from_bits), Some(0.5));
    assert_eq!(runtime.pids_limit, Some(32));
}

#[test]
fn toml_config_defaults_optional_values() {
    let toml = format!(
        r#"
[container]
rootfs = "{}"
command = "/bin/sh"
"#,
        ROOTFS
    );

    let config = toml_config(&toml);
    let runtime = config.into_runtime(valid_rootfs(), 12345).unwrap();

    assert_eq!(runtime.args, Vec::<String>::new());
    assert!(runtime.hostname.starts_with("crabbox-"));
    assert_eq!(runtime.memory_limit, None);
    assert_eq!(runtime.cpu_limit_bits, None);
    assert_eq!(runtime.pids_limit, None);
}

#[test]
fn into_runtime_reports_bad_memory_before_rootfs() {
    let config = TomlConfig {
        container: TomlContainer {
            rootfs: ROOTFS.to_string(),
            command: "/bin/sh".to_string(),
            args: None,
            hostname: None,
        },
        limits: Some(TomlLimits { memory: Some("lots".to_string()), cpus_bits: None, pids: None }),
    };
    let missing = RootfsProbe { exists: false, has_shell: false };
    assert_eq!(
        config.into_runtime(missing, 0),
        Err(ConfigError::InvalidMemoryValue { input: "lots".to_string() })
    );
}

#[test]
fn into_runtime_rejects_empty_hostname() {
    let config = TomlConfig {
        container: TomlContainer {
            rootfs: ROOTFS.to_string(),
            command: "/bin/sh".to_string(),
            args: Some(vec![]),
            hostname: Some("   ".to_string()),
        },
        limits: None,
    };
    assert_eq!(config.into_runtime(valid_rootfs(), 0), Err(ConfigError::EmptyHostname));
}

#[test]
fn parse_memory_units() {
    assert_eq!(parse_memory("64M"), Ok(64 * 1024 * 1024));
    assert_eq!(parse_memory("512K"), Ok(512 * 1024));
    assert_eq!(parse_memory("512k"), Ok(512 * 1024));
    assert_eq!(parse_memory("1G"), Ok(1024 * 1024 * 1024));
    assert_eq!(parse_memory("2g"), Ok(2 * 1024 * 1024 * 1024));
    assert_eq!(parse_memory("  3m \n"), Ok(3 * 1024 * 1024));
    assert_eq!(parse_memory("+5K"), Ok(5 * 1024));
    assert_eq!(parse_memory("0K"), Ok(0));
    assert_eq!(parse_memory("17179869183G"), Ok(17179869183 * 1024 * 1024 * 1024));
}

#[test]
fn parse_memory_errors() {
    assert_eq!(parse_memory(""), Err(ConfigError::EmptyMemory));
    assert_eq!(parse_memory(" \t "), Err(ConfigError::EmptyMemory));
    assert_eq!(
        parse_memory("M"),
        Err(ConfigError::InvalidMemoryValue { input: "M".to_string() })
    );
    assert_eq!(
        parse_memory(" abcM "),
        Err(ConfigError::InvalidMemoryValue { input: "abcM".to_string() })
    );
    assert_eq!(
        parse_memory("-5K"),
        Err(ConfigError::InvalidMemoryValue { input: "-5K".to_string() })
    );
    assert_eq!(
        parse_memory("1 2M"),
        Err(ConfigError::InvalidMemoryValue { input: "1 2M".to_string() })
    );
    assert_eq!(
        parse_memory("64"),
        Err(ConfigError::UnknownMemoryUnit { unit: "4".to_string(), input: "64".to_string() })
    );
    assert_eq!(
        parse_memory("12X"),
        Err(ConfigError::UnknownMemoryUnit { unit: "X".to_string(), input: "12X".to_string() })
    );
    assert_eq!(
        parse_memory("99999999999999999999K"),
        Err(ConfigError::InvalidMemoryValue { input: "99999999999999999999K".to_string() })
    );
}

#[test]
fn parse_memory_messages() {
    assert_eq!(parse_memory("").unwrap_err().message(), "memory limit cannot be empty");
    assert_eq!(parse_memory("xM").unwrap_err().message(), "invalid memory value: xM");
    assert_eq!(
        parse_memory("12X").unwrap_err().message(),
        "unknown memory unit 'X' in '12X' — use K, M, or G"
    );
}

#[test]
fn parse_memory_panicking_inputs() {
    assert!(parse_memory_would_panic("17179869184G"));
    assert!(parse_memory_would_panic("64é"));
    assert!(!parse_memory_would_panic("17179869183G"));
    assert!(!parse_memory_would_panic("64M"));
    assert!(!parse_memory_would_panic(""));
    assert!(!parse_memory_would_panic("éM"));
    assert!(!parse_memory_would_panic("99999999999999999999K"));
}

#[test]
fn memory_limit_round_trip_examples() {
    for n in [0u64, 1, 7, 64, 512, 1000, 123456] {
        for (unit, size) in [('K', 1024u64), ('m', 1024 * 1024), ('G', 1024 * 1024 * 1024)] {
            let text = format!("{}{}", crabbox::text::u64_to_decimal(n), unit);
            assert_eq!(parse_memory(&text), Ok(n * size));
        }
    }
}

#[test]
fn resolve_hostname_cases() {
    assert_eq!(resolve_hostname(None, "7f3a2b1c"), Ok("crabbox-7f3a2b1c".to_string()));
    assert_eq!(resolve_hostname(Some("  box \n".to_string()), "x"), Ok("box".to_string()));
    assert_eq!(resolve_hostname(Some(" \t ".to_string()), "x"), Err(ConfigError::EmptyHostname));
    assert_eq!(resolve_hostname(Some("a".repeat(63)), "x"), Ok("a".repeat(63)));
    assert_eq!(
        resolve_hostname(Some("a".repeat(64)), "x"),
        Err(ConfigError::HostnameTooLong)
    );
    assert_eq!(
        resolve_hostname(Some("é".repeat(32)), "x"),
        Err(ConfigError::HostnameTooLong)
    );
    assert_eq!(resolve_hostname(Some("é".repeat(31)), "x"), Ok("é".repeat(31)));
    assert_eq!(ConfigError::HostnameTooLong.message(), "hostname cannot exceed 63 bytes");
    assert_eq!(ConfigError::EmptyHostname.message(), "hostname cannot be empty");
}

#[test]
fn generate_id_is_eight_hex_digits() {
    assert_eq!(generate_id(0), "00000000");
    assert_eq!(generate_id(0x7f3a2b1c), "7f3a2b1c");
    assert_eq!(generate_id(999_999_999), "3b9ac9ff");
    assert_eq!(generate_id(u32::MAX), "ffffffff");
    assert_ne!(generate_id(1), generate_id(16));
}

#[test]
fn new_checks_rootfs() {
    let missing = ContainerConfig::new(
        "/nope".to_string(),
        RootfsProbe { exists: false, has_shell: false },
        "/bin/sh".to_string(),
        vec![],
        0,
        None,
        None,
        None,
    );
    assert_eq!(missing, Err(ConfigError::RootfsMissing { rootfs: "/nope".to_string() }));
    assert_eq!(
        missing.unwrap_err().message(),
        "rootfs path does not exist: /nope"
    );

    let empty = ContainerConfig::new(
        "/empty".to_string(),
        RootfsProbe { exists: true, has_shell: false },
        "/bin/sh".to_string(),
        vec![],
        0,
        None,
        None,
        None,
    );
    assert_eq!(
        empty.unwrap_err().message(),
        "rootfs is missing /bin/sh — is this a valid rootfs? (/empty)"
    );
}

#[test]
fn new_builds_default_hostname_from_id() {
    let config = ContainerConfig::new(
        "/tmp/crabbox/alpine".to_string(),
        valid_rootfs(),
        "/bin/echo".to_string(),
        strings(&["hello", "world"]),
        0x9c1d4e8a,
        Some(1024),
        Some(2.0f64.to_bits()),
        Some(32),
    )
    .unwrap();
    assert_eq!(config.id, "9c1d4e8a");
    assert_eq!(config.hostname, "crabbox-9c1d4e8a");
    assert_eq!(config.rootfs, "/tmp/crabbox/alpine");
    assert_eq!(config.command, "/bin/echo");
    assert_eq!(config.args, strings(&["hello", "world"]));
    assert_eq!(config.memory_limit, Some(1024));
    assert_eq!(config.cpu_limit_bits.map(f64::from_bits), Some(2.0));
    assert_eq!(config.pids_limit, Some(32));
}

#[test]
fn new_with_hostname_keeps_given_name() {
    let config = ContainerConfig::new_with_hostname(
        ROOTFS.to_string(),
        valid_rootfs(),
        "/bin/sh".to_string(),
        vec![],
        Some(" web ".to_string()),
        1,
        None,
        None,
        None,
    )
    .unwrap();
    assert_eq!(config.hostname, "web");
    assert_eq!(config.id, "00000001");
}
