//! Container configuration: memory limits, hostnames, container ids, and the
//! validated runtime configuration built from flags or from a TOML file.

use vstd::prelude::*;
use vstd::utf8::encode_utf8;
use crate::text::{
    chars_of, decimal, hex_digits, is_white_space, lemma_decimal_digits,
    lemma_decimal_round_trip, lemma_trimmed_idempotent, lemma_trimmed_push,
    lemma_trimmed_shape, parse_u64_chars, to_hex_padded, trim, trim_start, trimmed,
    u64_from_str,
};

verus! {

/// Why a configuration was refused.
#[derive(Debug, PartialEq, Eq)]
pub enum ConfigError {
    /// The rootfs directory does not exist.
    RootfsMissing { rootfs: String },
    /// The rootfs has no `/bin/sh`.
    RootfsWithoutShell { rootfs: String },
    /// The memory limit is empty once trimmed.
    EmptyMemory,
    /// The number in front of the unit is not a decimal `u64`.
    InvalidMemoryValue { input: String },
    /// The unit letter is none of K, M or G.
    UnknownMemoryUnit { unit: String, input: String },
    /// The hostname is empty once trimmed.
    EmptyHostname,
    /// The hostname is longer than 63 bytes once trimmed.
    HostnameTooLong,
}

/// The text that each configuration error is reported with.
pub open spec fn config_error_text(e: ConfigError) -> Seq<char> {
    match e {
        ConfigError::RootfsMissing { rootfs } => "rootfs path does not exist: "@ + rootfs@,
        ConfigError::RootfsWithoutShell { rootfs } => "rootfs is missing /bin/sh — is this a valid rootfs? ("@
            + rootfs@ + ")"@,
        ConfigError::EmptyMemory => "memory limit cannot be empty"@,
        ConfigError::InvalidMemoryValue { input } => "invalid memory value: "@ + input@,
        ConfigError::UnknownMemoryUnit { unit, input } => "unknown memory unit '"@ + unit@
            + "' in '"@ + input@ + "' — use K, M, or G"@,
        ConfigError::EmptyHostname => "hostname cannot be empty"@,
        ConfigError::HostnameTooLong => "hostname cannot exceed 63 bytes"@,
    }
}

impl ConfigError {
    /// The message this error is reported with.
    pub fn message(&self) -> (m: String)
        ensures
            m@ == config_error_text(*self),
    {
        match self {
            ConfigError::RootfsMissing { rootfs } => {
                let mut m = "rootfs path does not exist: ".to_owned();
                m.append(rootfs.as_str());
                m
            },
            ConfigError::RootfsWithoutShell { rootfs } => {
                let mut m = "rootfs is missing /bin/sh — is this a valid rootfs? (".to_owned();
                m.append(rootfs.as_str());
                m.append(")");
                m
            },
            ConfigError::EmptyMemory => "memory limit cannot be empty".to_owned(),
            ConfigError::InvalidMemoryValue { input } => {
                let mut m = "invalid memory value: ".to_owned();
                m.append(input.as_str());
                m
            },
            ConfigError::UnknownMemoryUnit { unit, input } => {
                let mut m = "unknown memory unit '".to_owned();
                m.append(unit.as_str());
                m.append("' in '");
                m.append(input.as_str());
                m.append("' — use K, M, or G");
                m
            },
            ConfigError::EmptyHostname => "hostname cannot be empty".to_owned(),
            ConfigError::HostnameTooLong => "hostname cannot exceed 63 bytes".to_owned(),
        }
    }
}

/// The number of bytes that a memory unit letter stands for; the letter is
/// read case-insensitively.
pub open spec fn unit_multiplier(c: char) -> Option<u64> {
    if c == 'K' || c == 'k' {
        Some(1024)
    } else if c == 'M' || c == 'm' {
        Some(1048576)
    } else if c == 'G' || c == 'g' {
        Some(1073741824)
    } else {
        None
    }
}

/// The inputs on which reading a memory limit cannot complete: the trimmed
/// text ends in a character outside ASCII (the split before the unit letter
/// would not fall on a character boundary), or the number times the unit
/// does not fit in a `u64`.
pub open spec fn parse_memory_panics(input: Seq<char>) -> bool {
    let t = trimmed(input);
    &&& t.len() > 0
    &&& {
        ||| (t.last() as u32) >= 128
        ||| {
            &&& u64_from_str(t.drop_last()) is Some
            &&& unit_multiplier(t.last()) is Some
            &&& u64_from_str(t.drop_last())->0 * unit_multiplier(t.last())->0 > u64::MAX
        }
    }
}

/// What reading the memory limit `input` gives: the trimmed text is a
/// decimal number followed by one unit letter K, M or G (in either case),
/// and the limit is the number times 1024, 1024² or 1024³ bytes.
pub open spec fn memory_result(input: Seq<char>, r: Result<u64, ConfigError>) -> bool {
    let t = trimmed(input);
    if t.len() == 0 {
        r == Err::<u64, ConfigError>(ConfigError::EmptyMemory)
    } else {
        match u64_from_str(t.drop_last()) {
            None => r matches Err(ConfigError::InvalidMemoryValue { input: i }) && i@ == t,
            Some(n) => match unit_multiplier(t.last()) {
                None => r matches Err(ConfigError::UnknownMemoryUnit { unit: u, input: i }) && u@
                    == seq![t.last()] && i@ == t,
                Some(m) => r == Ok::<u64, ConfigError>((n * m) as u64),
            },
        }
    }
}

/// The memory limit that `input` denotes, where reading it succeeds.
pub open spec fn memory_limit(input: Seq<char>) -> Option<u64> {
    let t = trimmed(input);
    if t.len() == 0 {
        None
    } else {
        match (u64_from_str(t.drop_last()), unit_multiplier(t.last())) {
            (Some(n), Some(m)) => Some((n * m) as u64),
            _ => None,
        }
    }
}

/// A decimal number followed by a unit letter reads as that many units,
/// and reading it completes.
pub proof fn lemma_memory_limit_of_numeral(n: u64, unit: char)
    requires
        unit_multiplier(unit) is Some,
        n * unit_multiplier(unit)->0 <= u64::MAX,
    ensures
        memory_limit(decimal(n as nat).push(unit)) == Some((n * unit_multiplier(unit)->0) as u64),
        !parse_memory_panics(decimal(n as nat).push(unit)),
{
    let s = decimal(n as nat).push(unit);
    lemma_decimal_digits(n as nat);
    lemma_decimal_round_trip(n);
    assert(s[0] == decimal(n as nat)[0]);
    lemma_trimmed_shape(s);
    assert(s.drop_last() =~= decimal(n as nat));
}

/// Whitespace around a memory limit is ignored.
pub proof fn lemma_memory_limit_ignores_whitespace(input: Seq<char>)
    ensures
        memory_limit(trimmed(input)) == memory_limit(input),
        parse_memory_panics(trimmed(input)) == parse_memory_panics(input),
{
    lemma_trimmed_idempotent(input);
}

/// The unit letter is read without regard to case.
pub proof fn lemma_memory_unit_case_insensitive(number: Seq<char>)
    ensures
        memory_limit(number.push('k')) == memory_limit(number.push('K')),
        memory_limit(number.push('m')) == memory_limit(number.push('M')),
        memory_limit(number.push('g')) == memory_limit(number.push('G')),
{
    lemma_trimmed_push(number, 'k');
    lemma_trimmed_push(number, 'K');
    lemma_trimmed_push(number, 'm');
    lemma_trimmed_push(number, 'M');
    lemma_trimmed_push(number, 'g');
    lemma_trimmed_push(number, 'G');
    assert(trim_start(number).push('k').drop_last() =~= trim_start(number));
    assert(trim_start(number).push('K').drop_last() =~= trim_start(number));
    assert(trim_start(number).push('m').drop_last() =~= trim_start(number));
    assert(trim_start(number).push('M').drop_last() =~= trim_start(number));
    assert(trim_start(number).push('g').drop_last() =~= trim_start(number));
    assert(trim_start(number).push('G').drop_last() =~= trim_start(number));
}

/// Reads a memory limit such as `64M`, `1G` or `512k` as a number of bytes.
pub fn parse_memory(input: &str) -> (r: Result<u64, ConfigError>)
    requires
        !parse_memory_panics(input@),
    ensures
        memory_result(input@, r),
        r matches Ok(bytes) ==> memory_limit(input@) == Some(bytes),
        r is Err ==> memory_limit(input@) is None,
{
    let t = trim(input);
    let v = chars_of(t);
    let n = v.len();
    if n == 0 {
        return Err(ConfigError::EmptyMemory);
    }
    assert(v@.subrange(0, n - 1) =~= t@.drop_last());
    match parse_u64_chars(&v, 0, n - 1) {
        None => Err(ConfigError::InvalidMemoryValue { input: t.to_owned() }),
        Some(number) => {
            let c = v[n - 1];
            let multiplier: u64 = if c == 'K' || c == 'k' {
                1024
            } else if c == 'M' || c == 'm' {
                1024 * 1024
            } else if c == 'G' || c == 'g' {
                1024 * 1024 * 1024
            } else {
                let unit = t.substring_char(n - 1, n);
                assert(unit@ =~= seq![t@.last()]);
                return Err(ConfigError::UnknownMemoryUnit { unit: unit.to_owned(), input: t.to_owned() });
            };
            Ok(number * multiplier)
        },
    }
}

/// Whether reading `input` as a memory limit cannot complete (see
/// `parse_memory_panics`).
pub fn parse_memory_would_panic(input: &str) -> (b: bool)
    ensures
        b == parse_memory_panics(input@),
{
    let t = trim(input);
    let v = chars_of(t);
    let n = v.len();
    if n == 0 {
        return false;
    }
    let c = v[n - 1];
    if (c as u32) >= 128 {
        return true;
    }
    assert(v@.subrange(0, n - 1) =~= t@.drop_last());
    match parse_u64_chars(&v, 0, n - 1) {
        None => false,
        Some(number) => {
            let multiplier: u64 = if c == 'K' || c == 'k' {
                1024
            } else if c == 'M' || c == 'm' {
                1024 * 1024
            } else if c == 'G' || c == 'g' {
                1024 * 1024 * 1024
            } else {
                return false;
            };
            number.checked_mul(multiplier).is_none()
        },
    }
}

/// What resolving the hostname `hostname` of container `id` gives: the
/// container's default name `crabbox-<id>` where none was given, else the
/// given name trimmed, which must be non-empty and at most 63 bytes long.
pub open spec fn hostname_result(
    hostname: Option<String>,
    id: Seq<char>,
    r: Result<String, ConfigError>,
) -> bool {
    match hostname {
        None => r matches Ok(h) && h@ == "crabbox-"@ + id,
        Some(given) => {
            let t = trimmed(given@);
            if t.len() == 0 {
                r matches Err(ConfigError::EmptyHostname)
            } else if encode_utf8(t).len() > 63 {
                r matches Err(ConfigError::HostnameTooLong)
            } else {
                r matches Ok(h) && h@ == t
            }
        },
    }
}

/// The hostname of container `id`: the given one, checked, or `crabbox-<id>`.
pub fn resolve_hostname(hostname: Option<String>, id: &str) -> (r: Result<String, ConfigError>)
    ensures
        hostname_result(hostname, id@, r),
{
    match hostname {
        Some(given) => {
            let t = trim(given.as_str());
            if t.unicode_len() == 0 {
                return Err(ConfigError::EmptyHostname);
            }
            let bytes = t.as_bytes().len();
            if bytes > 63 {
                return Err(ConfigError::HostnameTooLong);
            }
            let h = t.to_owned();
            assert(h@ == trimmed(given@));
            Ok(h)
        },
        None => {
            let mut h = "crabbox-".to_owned();
            h.append(id);
            Ok(h)
        },
    }
}

/// A hostname that resolving accepts from a given name is non-empty, at
/// most 63 bytes long, and neither starts nor ends with whitespace.
pub proof fn lemma_resolved_hostname_valid(given: String, id: Seq<char>, h: String)
    requires
        hostname_result(Some(given), id, Ok(h)),
    ensures
        h@.len() > 0,
        encode_utf8(h@).len() <= 63,
        !is_white_space(h@[0]),
        !is_white_space(h@.last()),
{
    lemma_trimmed_shape(given@);
}

/// A given hostname is refused only when it is empty or longer than 63
/// bytes once trimmed: any other name is accepted as it is, trimmed,
/// whatever characters it holds.
pub proof fn lemma_hostname_refused_only_empty_or_long(
    given: String,
    id: Seq<char>,
    r: Result<String, ConfigError>,
)
    requires
        hostname_result(Some(given), id, r),
    ensures
        (trimmed(given@).len() > 0 && encode_utf8(trimmed(given@)).len() <= 63) ==> (r matches Ok(
            h,
        ) && h@ == trimmed(given@)),
        r is Err ==> trimmed(given@).len() == 0 || encode_utf8(trimmed(given@)).len() > 63,
        r matches Ok(h) ==> h@ == trimmed(given@),
{
}

/// The container id made from the sub-second nanoseconds of the clock:
/// eight lowercase hexadecimal digits.
pub open spec fn id_of_nanos(nanos: u32) -> Seq<char> {
    hex_digits(nanos as nat, 8)
}

/// The container id for a clock reading whose sub-second part is `nanos`
/// nanoseconds, written as eight zero-padded lowercase hexadecimal digits.
pub fn generate_id(nanos: u32) -> (id: String)
    ensures
        id@ == id_of_nanos(nanos),
{
    to_hex_padded(nanos as u64, 8)
}

/// Two different clock readings give two different container ids.
pub proof fn lemma_generate_id_injective(a: u32, b: u32)
    requires
        id_of_nanos(a) == id_of_nanos(b),
    ensures
        a == b,
{
    assert(crate::text::pow16(8) == 0x1_0000_0000) by {
        reveal_with_fuel(crate::text::pow16, 9);
    }
    crate::text::lemma_hex_digits_injective(a as nat, b as nat, 8);
}

/// What the host's filesystem says of a rootfs directory.
#[derive(Debug, Clone, Copy, PartialEq, Eq)]
pub struct RootfsProbe {
    /// The directory exists.
    pub exists: bool,
    /// `bin/sh` exists under it (a symbolic link counts).
    pub has_shell: bool,
}

/// Everything needed to launch a container.
#[derive(Debug, PartialEq)]
pub struct ContainerConfig {
    /// Eight hexadecimal digits taken from the clock.
    pub id: String,
    /// The extracted root filesystem.
    pub rootfs: String,
    /// The command run inside the container.
    pub command: String,
    /// Its arguments.
    pub args: Vec<String>,
    /// The container's hostname.
    pub hostname: String,
    /// The memory limit in bytes.
    pub memory_limit: Option<u64>,
    /// The CPU limit in fractional cores, as the bit pattern of an IEEE 754
    /// double (`f64::to_bits`); it is carried through unchanged.
    pub cpu_limit_bits: Option<u64>,
    /// The maximum number of processes.
    pub pids_limit: Option<u64>,
}

/// What building a configuration gives: the rootfs must exist and hold
/// `/bin/sh`; then the id comes from the clock reading `nanos`, the hostname
/// is resolved for that id, and every other field is kept as given.
pub open spec fn config_result(
    rootfs: String,
    probe: RootfsProbe,
    command: String,
    args: Seq<String>,
    hostname: Option<String>,
    nanos: u32,
    memory_limit: Option<u64>,
    cpu_limit_bits: Option<u64>,
    pids_limit: Option<u64>,
    r: Result<ContainerConfig, ConfigError>,
) -> bool {
    if !probe.exists {
        r matches Err(ConfigError::RootfsMissing { rootfs: p }) && p@ == rootfs@
    } else if !probe.has_shell {
        r matches Err(ConfigError::RootfsWithoutShell { rootfs: p }) && p@ == rootfs@
    } else {
        match r {
            Ok(c) => {
                &&& c.id@ == id_of_nanos(nanos)
                &&& hostname_result(hostname, c.id@, Ok(c.hostname))
                &&& c.rootfs == rootfs
                &&& c.command == command
                &&& c.args@ == args
                &&& c.memory_limit == memory_limit
                &&& c.cpu_limit_bits == cpu_limit_bits
                &&& c.pids_limit == pids_limit
            },
            Err(e) => hostname_result(hostname, id_of_nanos(nanos), Err(e)),
        }
    }
}

impl ContainerConfig {
    /// A configuration with the default hostname `crabbox-<id>`.
    pub fn new(
        rootfs: String,
        probe: RootfsProbe,
        command: String,
        args: Vec<String>,
        nanos: u32,
        memory_limit: Option<u64>,
        cpu_limit_bits: Option<u64>,
        pids_limit: Option<u64>,
    ) -> (r: Result<ContainerConfig, ConfigError>)
        ensures
            config_result(
                rootfs,
                probe,
                command,
                args@,
                None,
                nanos,
                memory_limit,
                cpu_limit_bits,
                pids_limit,
                r,
            ),
    {
        Self::new_with_hostname(
            rootfs,
            probe,
            command,
            args,
            None,
            nanos,
            memory_limit,
            cpu_limit_bits,
            pids_limit,
        )
    }

    /// A configuration, checked: the rootfs must exist and hold `/bin/sh`,
    /// and a given hostname must be valid.
    pub fn new_with_hostname(
        rootfs: String,
        probe: RootfsProbe,
        command: String,
        args: Vec<String>,
        hostname: Option<String>,
        nanos: u32,
        memory_limit: Option<u64>,
        cpu_limit_bits: Option<u64>,
        pids_limit: Option<u64>,
    ) -> (r: Result<ContainerConfig, ConfigError>)
        ensures
            config_result(
                rootfs,
                probe,
                command,
                args@,
                hostname,
                nanos,
                memory_limit,
                cpu_limit_bits,
                pids_limit,
                r,
            ),
    {
        if !probe.exists {
            return Err(ConfigError::RootfsMissing { rootfs });
        }
        if !probe.has_shell {
            return Err(ConfigError::RootfsWithoutShell { rootfs });
        }
        let id = generate_id(nanos);
        let hostname = match resolve_hostname(hostname, id.as_str()) {
            Ok(h) => h,
            Err(e) => return Err(e),
        };
        Ok(ContainerConfig {
            id,
            rootfs,
            command,
            args,
            hostname,
            memory_limit,
            cpu_limit_bits,
            pids_limit,
        })
    }
}

/// The `[container]` table of a TOML configuration file.
#[derive(Debug, PartialEq)]
pub struct TomlContainer {
    pub rootfs: String,
    pub command: String,
    pub args: Option<Vec<String>>,
    pub hostname: Option<String>,
}

/// The `[limits]` table of a TOML configuration file.
#[derive(Debug, PartialEq)]
pub struct TomlLimits {
    /// A memory limit such as `64M`.
    pub memory: Option<String>,
    /// The CPU limit in fractional cores, as the bit pattern of an IEEE 754
    /// double (`f64::to_bits`).
    pub cpus_bits: Option<u64>,
    /// The maximum number of processes.
    pub pids: Option<u64>,
}

/// A TOML configuration file.
#[derive(Debug, PartialEq)]
pub struct TomlConfig {
    pub container: TomlContainer,
    pub limits: Option<TomlLimits>,
}

/// The memory limit text of a configuration file, if it has one.
pub open spec fn toml_memory(config: TomlConfig) -> Option<String> {
    match config.limits {
        Some(l) => l.memory,
        None => None,
    }
}

/// The CPU limit of a configuration file, if it has one.
pub open spec fn toml_cpus_bits(config: TomlConfig) -> Option<u64> {
    match config.limits {
        Some(l) => l.cpus_bits,
        None => None,
    }
}

/// The process limit of a configuration file, if it has one.
pub open spec fn toml_pids(config: TomlConfig) -> Option<u64> {
    match config.limits {
        Some(l) => l.pids,
        None => None,
    }
}

/// The argument list of a configuration file; none given is an empty list.
pub open spec fn toml_args(config: TomlConfig) -> Seq<String> {
    match config.container.args {
        Some(a) => a@,
        None => Seq::empty(),
    }
}

/// What turning the file `config` into a runtime configuration gives: a
/// memory limit that cannot be read is reported first; otherwise the
/// configuration is built as `new_with_hostname` builds it, from the file's
/// values, with no arguments where the file lists none.
pub open spec fn runtime_result(
    config: TomlConfig,
    probe: RootfsProbe,
    nanos: u32,
    r: Result<ContainerConfig, ConfigError>,
) -> bool {
    match toml_memory(config) {
        Some(m) if memory_limit(m@) is None => r matches Err(e) && memory_result(m@, Err(e)),
        _ => config_result(
            config.container.rootfs,
            probe,
            config.container.command,
            toml_args(config),
            config.container.hostname,
            nanos,
            match toml_memory(config) {
                Some(m) => memory_limit(m@),
                None => None,
            },
            toml_cpus_bits(config),
            toml_pids(config),
            r,
        ),
    }
}

/// The limits of a file carry over independently: an accepted runtime
/// configuration has exactly the CPU and process limits of the file's
/// `[limits]` table (none without the table), whether or not the table
/// sets a memory limit, and a memory limit only where the table sets one.
pub proof fn lemma_runtime_keeps_limits(
    config: TomlConfig,
    probe: RootfsProbe,
    nanos: u32,
    r: Result<ContainerConfig, ConfigError>,
)
    requires
        runtime_result(config, probe, nanos, r),
        r is Ok,
    ensures
        config.limits matches Some(l) ==> (r matches Ok(c) && c.cpu_limit_bits == l.cpus_bits
            && c.pids_limit == l.pids),
        config.limits is None ==> (r matches Ok(c) && c.cpu_limit_bits is None && c.pids_limit
            is None && c.memory_limit is None),
        (config.limits matches Some(l) && l.memory is None) ==> (r matches Ok(c)
            && c.memory_limit is None),
        (config.limits is Some && config.limits->0.memory is Some) ==> (r matches Ok(c)
            && c.memory_limit == memory_limit(config.limits->0.memory->0@) && c.memory_limit
            is Some),
        r matches Ok(c) && c.rootfs == config.container.rootfs && c.command
            == config.container.command,
{
}

impl TomlConfig {
    /// The runtime configuration that this file describes. The memory limit
    /// is read first; then the configuration is built and checked as
    /// `new_with_hostname` does.
    pub fn into_runtime(self, probe: RootfsProbe, nanos: u32) -> (r: Result<
        ContainerConfig,
        ConfigError,
    >)
        requires
            toml_memory(self) matches Some(m) ==> !parse_memory_panics(m@),
        ensures
            runtime_result(self, probe, nanos, r),
    {
        let memory_limit = match &self.limits {
            Some(limits) => match &limits.memory {
                Some(m) => match parse_memory(m.as_str()) {
                    Ok(bytes) => Some(bytes),
                    Err(e) => return Err(e),
                },
                None => None,
            },
            None => None,
        };
        let cpu_limit_bits = match &self.limits {
            Some(limits) => limits.cpus_bits,
            None => None,
        };
        let pids_limit = match &self.limits {
            Some(limits) => limits.pids,
            None => None,
        };
        let args = match self.container.args {
            Some(a) => a,
            None => Vec::new(),
        };
        ContainerConfig::new_with_hostname(
            self.container.rootfs,
            probe,
            self.container.command,
            args,
            self.container.hostname,
            nanos,
            memory_limit,
            cpu_limit_bits,
            pids_limit,
        )
    }
}

} // verus!
