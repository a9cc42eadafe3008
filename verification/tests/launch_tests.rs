use crabbox::cgroups::Cgroup;
use crabbox::cli::{preflight, run_config, CliError, FlagConfig, RunSource};
use crabbox::config::{ConfigError, ContainerConfig, RootfsProbe};
use crabbox::container::{cgroup_writes, container_hostname, start_messages};
use crabbox::filesystem::{exec_command, ExecError};

fn config(args: &[&str], memory: Option<u64>, cpus: Option<f64>, pids: Option<u64>) -> ContainerConfig {
    ContainerConfig::new(
        "/tmp/crabbox/alpine".to_string(),
        RootfsProbe { exists: true, has_shell: true },
        "/bin/echo".to_string(),
        args.iter().map(|s| s.to_string()).collect(),
        0x7f3a2b1c,
        memory,
        cpus.map(f64::to_bits),
        pids,
    )
    .unwrap()
}

#[test]
fn start_messages_and_hostname() {
    let c = config(&["hello", "world"], None, None, None);
    let lines = start_messages(&c);
    assert_eq!(
        lines,
        vec![
            "[crabbox] starting container 7f3a2b1c with rootfs: /tmp/crabbox/alpine".to_string(),
            "[crabbox] command: /bin/echo hello world".to_string(),
        ]
    );
    assert_eq!(container_hostname(&c), "crabbox-7f3a2b1c");

    let named = ContainerConfig::new_with_hostname(
        "/tmp/crabbox/alpine".to_string(),
        RootfsProbe { exists: true, has_shell: true },
        "/bin/sh".to_string(),
        vec![],
        Some("mycontainer".to_string()),
        0x7f3a2b1c,
        None,
        None,
        None,
    )
    .unwrap();
    assert_eq!(container_hostname(&named), "mycontainer");

    let bare = config(&[], None, None, None);
    assert_eq!(start_messages(&bare)[1], "[crabbox] command: /bin/echo ");
}

#[test]
fn cgroup_writes_follow_the_limits() {
    let cgroup = Cgroup::new("7f3a2b1c");
    let all = config(&[], Some(64 * 1024 * 1024), Some(0.5), Some(32));
    let writes = cgroup_writes(&cgroup, &all, Some(50_000), 99);
    let files: Vec<&str> = writes.iter().map(|w| w.file.rsplit('/').next().unwrap()).collect();
    assert_eq!(files, vec!["memory.max", "cpu.max", "pids.max", "cgroup.procs"]);
    let contents: Vec<&str> = writes.iter().map(|w| w.contents.as_str()).collect();
    assert_eq!(contents, vec!["67108864", "50000 100000", "32", "99"]);

    let none = config(&[], None, None, None);
    let writes = cgroup_writes(&cgroup, &none, None, 7);
    assert_eq!(writes.len(), 1);
    assert_eq!(writes[0].file, "/sys/fs/cgroup/crabbox/crabbox-7f3a2b1c/cgroup.procs");
    assert_eq!(writes[0].contents, "7");
}

#[test]
fn exec_plan_with_clean_environment() {
    let args = vec!["hello".to_string(), "world".to_string()];
    let plan = exec_command("/bin/echo", &args).unwrap();
    assert_eq!(plan.program, "/bin/echo");
    assert_eq!(plan.argv, vec!["/bin/echo", "hello", "world"]);
    assert_eq!(
        plan.env,
        vec!["PATH=/bin:/usr/bin:/sbin:/usr/sbin:/usr/local/bin", "HOME=/root", "TERM=xterm-256color"]
    );
    assert_eq!(exec_command("/bin/sh", &vec![]).unwrap().argv, vec!["/bin/sh"]);
}

#[test]
fn exec_plan_rejects_nul() {
    assert_eq!(exec_command("/bin/\0sh", &vec!["a\0".to_string()]), Err(ExecError::InvalidCommand));
    assert_eq!(
        exec_command("/bin/sh", &vec!["ok".to_string(), "a\0b".to_string()]),
        Err(ExecError::InvalidArgument)
    );
    assert_eq!(ExecError::InvalidCommand.message(), "invalid command string");
    assert_eq!(ExecError::InvalidArgument.message(), "invalid argument string");
}

#[test]
fn run_config_from_file_excludes_flags() {
    assert_eq!(
        run_config(Some("c.toml".to_string()), None, None, None, None, None, vec![]),
        Ok(RunSource::ConfigFile("c.toml".to_string()))
    );
    assert_eq!(
        run_config(Some("c.toml".to_string()), Some("64M".to_string()), None, None, None, None, vec![]),
        Err(CliError::ConfigWithFlags)
    );
    assert_eq!(
        run_config(Some("c.toml".to_string()), None, None, None, None, None, vec!["x".to_string()]),
        Err(CliError::ConfigWithFlags)
    );
    assert_eq!(
        run_config(Some("c.toml".to_string()), None, Some(1.0f64.to_bits()), None, None, None, vec![]),
        Err(CliError::ConfigWithFlags)
    );
    assert_eq!(
        CliError::ConfigWithFlags.message(),
        "--config cannot be combined with resource flags, rootfs, command, or args"
    );
}

#[test]
fn run_config_from_flags() {
    assert_eq!(
        run_config(None, None, None, None, Some("/r".to_string()), None, vec![]),
        Err(CliError::MissingRootfsOrCommand)
    );
    assert_eq!(
        run_config(None, None, None, None, None, Some("/bin/sh".to_string()), vec![]),
        Err(CliError::MissingRootfsOrCommand)
    );
    assert_eq!(
        CliError::MissingRootfsOrCommand.message(),
        "run requires <rootfs> <command> unless --config is used"
    );
    assert_eq!(
        run_config(
            None,
            Some("1X".to_string()),
            None,
            None,
            Some("/r".to_string()),
            Some("/bin/sh".to_string()),
            vec![]
        ),
        Err(CliError::Config(ConfigError::UnknownMemoryUnit {
            unit: "X".to_string(),
            input: "1X".to_string()
        }))
    );
    let source = run_config(
        None,
        Some("64M".to_string()),
        Some(0.5f64.to_bits()),
        Some(32),
        Some("/r".to_string()),
        Some("/bin/sh".to_string()),
        vec!["-c".to_string()],
    )
    .unwrap();
    let expected = FlagConfig {
        rootfs: "/r".to_string(),
        command: "/bin/sh".to_string(),
        args: vec!["-c".to_string()],
        memory_limit: Some(67108864),
        cpu_limit_bits: Some(0.5f64.to_bits()),
        pids_limit: Some(32),
    };
    assert_eq!(source, RunSource::Flags(expected));
    if let RunSource::Flags(flags) = source {
        let c = flags.into_config(RootfsProbe { exists: true, has_shell: true }, 0xabc).unwrap();
        assert_eq!(c.hostname, "crabbox-00000abc");
        assert_eq!(c.memory_limit, Some(67108864));
    }
}

#[test]
fn preflight_checks() {
    assert_eq!(preflight(1000, true), Err(CliError::NotRoot));
    assert_eq!(preflight(1000, false), Err(CliError::NotRoot));
    assert_eq!(
        preflight(0, false),
        Err(CliError::Cgroup(crabbox::cgroups::CgroupError::NoCgroupsV2))
    );
    assert_eq!(preflight(0, true), Ok(()));
    assert_eq!(CliError::NotRoot.message(), "crabbox requires root. Run with sudo.");
}
