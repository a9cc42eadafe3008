//! The decisions of the command line: whether a run is described by a
//! configuration file or by flags, and whether the host can run containers.

use vstd::prelude::*;
use crate::cgroups::{CgroupError, cgroup_error_text, ensure_cgroups_v2};
use crate::config::{
    ConfigError, ContainerConfig, RootfsProbe, config_error_text, config_result, memory_limit,
    memory_result, parse_memory, parse_memory_panics,
};

verus! {

/// Why a command-line request was refused.
#[derive(Debug, PartialEq, Eq)]
pub enum CliError {
    /// The runtime was not started by root.
    NotRoot,
    /// A configuration file was given together with other settings.
    ConfigWithFlags,
    /// Without a configuration file, the rootfs or the command is missing.
    MissingRootfsOrCommand,
    /// The configuration was refused.
    Config(ConfigError),
    /// The cgroup hierarchy was refused.
    Cgroup(CgroupError),
}

/// The text that each command-line error is reported with.
pub open spec fn cli_error_text(e: CliError) -> Seq<char> {
    match e {
        CliError::NotRoot => "crabbox requires root. Run with sudo."@,
        CliError::ConfigWithFlags => "--config cannot be combined with resource flags, rootfs, command, or args"@,
        CliError::MissingRootfsOrCommand => "run requires <rootfs> <command> unless --config is used"@,
        CliError::Config(c) => config_error_text(c),
        CliError::Cgroup(c) => cgroup_error_text(c),
    }
}

impl CliError {
    /// The message this error is reported with.
    pub fn message(&self) -> (m: String)
        ensures
            m@ == cli_error_text(*self),
    {
        match self {
            CliError::NotRoot => "crabbox requires root. Run with sudo.".to_owned(),
            CliError::ConfigWithFlags => "--config cannot be combined with resource flags, rootfs, command, or args".to_owned(),
            CliError::MissingRootfsOrCommand => "run requires <rootfs> <command> unless --config is used".to_owned(),
            CliError::Config(c) => c.message(),
            CliError::Cgroup(c) => c.message(),
        }
    }
}

/// A container described by command-line flags, its memory limit read.
#[derive(Debug, PartialEq)]
pub struct FlagConfig {
    pub rootfs: String,
    pub command: String,
    pub args: Vec<String>,
    pub memory_limit: Option<u64>,
    /// The CPU limit in fractional cores, as the bit pattern of an IEEE 754
    /// double (`f64::to_bits`).
    pub cpu_limit_bits: Option<u64>,
    pub pids_limit: Option<u64>,
}

impl FlagConfig {
    /// The runtime configuration for these flags, with the default hostname.
    pub fn into_config(self, probe: RootfsProbe, nanos: u32) -> (r: Result<
        ContainerConfig,
        ConfigError,
    >)
        ensures
            config_result(
                self.rootfs,
                probe,
                self.command,
                self.args@,
                None,
                nanos,
                self.memory_limit,
                self.cpu_limit_bits,
                self.pids_limit,
                r,
            ),
    {
        ContainerConfig::new(
            self.rootfs,
            probe,
            self.command,
            self.args,
            nanos,
            self.memory_limit,
            self.cpu_limit_bits,
            self.pids_limit,
        )
    }
}

/// Where the container of a `run` comes from.
#[derive(Debug, PartialEq)]
pub enum RunSource {
    /// A TOML configuration file at this path.
    ConfigFile(String),
    /// The command-line flags.
    Flags(FlagConfig),
}

/// Whether any setting besides the configuration file was given.
pub open spec fn other_settings_given(
    memory: Option<String>,
    cpu_limit_bits: Option<u64>,
    pids: Option<u64>,
    rootfs: Option<String>,
    command: Option<String>,
    args: Seq<String>,
) -> bool {
    memory is Some || cpu_limit_bits is Some || pids is Some || rootfs is Some || command is Some
        || args.len() > 0
}

/// What deciding where a `run` takes its container from gives (see
/// `run_config`).
pub open spec fn run_config_result(
    config: Option<String>,
    memory: Option<String>,
    cpu_limit_bits: Option<u64>,
    pids: Option<u64>,
    rootfs: Option<String>,
    command: Option<String>,
    args: Vec<String>,
    r: Result<RunSource, CliError>,
) -> bool {
    &&& config matches Some(path) ==> if other_settings_given(
        memory,
        cpu_limit_bits,
        pids,
        rootfs,
        command,
        args@,
    ) {
        r == Err::<RunSource, CliError>(CliError::ConfigWithFlags)
    } else {
        r matches Ok(RunSource::ConfigFile(p)) && p == path
    }
    &&& config is None && (rootfs is None || command is None) ==> r == Err::<RunSource, CliError>(
        CliError::MissingRootfsOrCommand,
    )
    &&& config is None && rootfs is Some && command is Some ==> match memory {
        Some(m) if memory_limit(m@) is None => r matches Err(CliError::Config(e)) && memory_result(
            m@,
            Err(e),
        ),
        _ => r matches Ok(RunSource::Flags(f)) && f == (FlagConfig {
            rootfs: rootfs->0,
            command: command->0,
            args,
            memory_limit: match memory {
                Some(m) => memory_limit(m@),
                None => None,
            },
            cpu_limit_bits,
            pids_limit: pids,
        }),
    }
}

/// A configuration file excludes every other setting: with `--config`, the
/// run is refused exactly when a memory, CPU or process limit, a rootfs, a
/// command or an argument is also given, and otherwise comes from the file.
pub proof fn lemma_config_file_excludes_flags(
    config: Option<String>,
    memory: Option<String>,
    cpu_limit_bits: Option<u64>,
    pids: Option<u64>,
    rootfs: Option<String>,
    command: Option<String>,
    args: Vec<String>,
    r: Result<RunSource, CliError>,
)
    requires
        run_config_result(config, memory, cpu_limit_bits, pids, rootfs, command, args, r),
        config is Some,
    ensures
        (memory is Some || cpu_limit_bits is Some || pids is Some || rootfs is Some || command is Some
            || args@.len() > 0) <==> r == Err::<RunSource, CliError>(CliError::ConfigWithFlags),
        !(memory is Some || cpu_limit_bits is Some || pids is Some || rootfs is Some || command
            is Some || args@.len() > 0) ==> r == Ok::<RunSource, CliError>(
            RunSource::ConfigFile(config->0),
        ),
{
}

/// Where a `run` takes its container from: a configuration file, which
/// excludes every other setting; or else the flags, which must name a
/// rootfs and a command, and whose memory limit must be readable.
pub fn run_config(
    config: Option<String>,
    memory: Option<String>,
    cpu_limit_bits: Option<u64>,
    pids: Option<u64>,
    rootfs: Option<String>,
    command: Option<String>,
    args: Vec<String>,
) -> (r: Result<RunSource, CliError>)
    requires
        config is None ==> (memory matches Some(m) ==> !parse_memory_panics(m@)),
    ensures
        config matches Some(path) ==> if other_settings_given(
            memory,
            cpu_limit_bits,
            pids,
            rootfs,
            command,
            args@,
        ) {
            r == Err::<RunSource, CliError>(CliError::ConfigWithFlags)
        } else {
            r matches Ok(RunSource::ConfigFile(p)) && p == path
        },
        config is None && (rootfs is None || command is None) ==> r == Err::<RunSource, CliError>(
            CliError::MissingRootfsOrCommand,
        ),
        config is None && rootfs is Some && command is Some ==> match memory {
            Some(m) if memory_limit(m@) is None => r matches Err(CliError::Config(e)) && memory_result(
                m@,
                Err(e),
            ),
            _ => r matches Ok(RunSource::Flags(f)) && f == (FlagConfig {
                rootfs: rootfs->0,
                command: command->0,
                args,
                memory_limit: match memory {
                    Some(m) => memory_limit(m@),
                    None => None,
                },
                cpu_limit_bits,
                pids_limit: pids,
            }),
        },
        run_config_result(config, memory, cpu_limit_bits, pids, rootfs, command, args, r),
{
    if let Some(path) = config {
        if memory.is_some() || cpu_limit_bits.is_some() || pids.is_some() || rootfs.is_some()
            || command.is_some() || args.len() > 0 {
            return Err(CliError::ConfigWithFlags);
        }
        return Ok(RunSource::ConfigFile(path));
    }
    let rootfs = match rootfs {
        Some(r) => r,
        None => return Err(CliError::MissingRootfsOrCommand),
    };
    let command = match command {
        Some(c) => c,
        None => return Err(CliError::MissingRootfsOrCommand),
    };
    let memory_limit = match &memory {
        Some(m) => match parse_memory(m.as_str()) {
            Ok(bytes) => Some(bytes),
            Err(e) => return Err(CliError::Config(e)),
        },
        None => None,
    };
    Ok(
        RunSource::Flags(
            FlagConfig { rootfs, command, args, memory_limit, cpu_limit_bits, pids_limit: pids },
        ),
    )
}

/// The checks made before any command: the runtime must run as root
/// (`uid` 0), and the unified cgroup hierarchy must be mounted.
pub fn preflight(uid: u32, cgroups_v2_present: bool) -> (r: Result<(), CliError>)
    ensures
        uid != 0 ==> r == Err::<(), CliError>(CliError::NotRoot),
        uid == 0 && !cgroups_v2_present ==> r == Err::<(), CliError>(
            CliError::Cgroup(CgroupError::NoCgroupsV2),
        ),
        uid == 0 && cgroups_v2_present ==> r is Ok,
{
    if uid != 0 {
        return Err(CliError::NotRoot);
    }
    match ensure_cgroups_v2(cgroups_v2_present) {
        Ok(()) => Ok(()),
        Err(e) => Err(CliError::Cgroup(e)),
    }
}

} // verus!
