//! cgroups v2: where a container's cgroup lives, the files its limits are
//! written to and what is written there, and the reading of the values that
//! the kernel reports back.

use vstd::prelude::*;
use crate::config::id_of_nanos;
use crate::text::{
    decimal, has_prefix, is_hex_digit, is_white_space, lemma_hex_digits_shape, lemma_trimmed_shape, parse_u64, starts_with,
    strip_prefix, trim, trimmed, u64_from_str, u64_to_decimal,
};

verus! {

/// The mount point of the unified cgroup hierarchy.
pub open spec fn cgroup_root() -> Seq<char> {
    "/sys/fs/cgroup"@
}

/// The directory under the hierarchy that holds every container's cgroup.
pub open spec fn cgroup_parent() -> Seq<char> {
    cgroup_root() + "/"@ + "crabbox"@
}

/// The prefix of every container's cgroup name.
pub open spec fn name_prefix() -> Seq<char> {
    "crabbox-"@
}

/// The period, in microseconds, over which a CPU quota is counted.
pub const CPU_PERIOD: u64 = 100000;

/// Why a cgroup operation was refused.
#[derive(Debug, PartialEq, Eq)]
pub enum CgroupError {
    /// The host does not mount the unified (v2) hierarchy.
    NoCgroupsV2,
    /// The container id is empty once trimmed and stripped of its prefix.
    EmptyContainerId,
    /// No cgroup of that name exists.
    ContainerNotFound { name: String },
    /// A cgroup file does not hold a decimal number.
    ParseFailed { file: String },
}

/// The text that each cgroup error is reported with.
pub open spec fn cgroup_error_text(e: CgroupError) -> Seq<char> {
    match e {
        CgroupError::NoCgroupsV2 => "cgroups v2 not found. Is your kernel configured with unified hierarchy?"@,
        CgroupError::EmptyContainerId => "container id cannot be empty"@,
        CgroupError::ContainerNotFound { name } => "container "@ + name@ + " not found"@,
        CgroupError::ParseFailed { file } => "failed to parse "@ + file@,
    }
}

impl CgroupError {
    /// The message this error is reported with.
    pub fn message(&self) -> (m: String)
        ensures
            m@ == cgroup_error_text(*self),
    {
        match self {
            CgroupError::NoCgroupsV2 => "cgroups v2 not found. Is your kernel configured with unified hierarchy?".to_owned(),
            CgroupError::EmptyContainerId => "container id cannot be empty".to_owned(),
            CgroupError::ContainerNotFound { name } => {
                let mut m = "container ".to_owned();
                m.append(name.as_str());
                m.append(" not found");
                m
            },
            CgroupError::ParseFailed { file } => {
                let mut m = "failed to parse ".to_owned();
                m.append(file.as_str());
                m
            },
        }
    }
}

/// The directory that holds every container's cgroup.
pub fn parent_path() -> (p: String)
    ensures
        p@ == cgroup_parent(),
{
    let mut p = "/sys/fs/cgroup".to_owned();
    p.append("/");
    p.append("crabbox");
    p
}

/// The file whose presence shows that the unified hierarchy is mounted.
pub fn cgroup_controllers_path() -> (p: String)
    ensures
        p@ == cgroup_root() + "/"@ + "cgroup.controllers"@,
{
    let mut p = "/sys/fs/cgroup".to_owned();
    p.append("/");
    p.append("cgroup.controllers");
    p
}

/// Succeeds when the unified hierarchy is mounted, that is when
/// `cgroup.controllers` is present at its root.
pub fn ensure_cgroups_v2(controllers_present: bool) -> (r: Result<(), CgroupError>)
    ensures
        controllers_present ==> r is Ok,
        !controllers_present ==> r == Err::<(), CgroupError>(CgroupError::NoCgroupsV2),
{
    if !controllers_present {
        return Err(CgroupError::NoCgroupsV2);
    }
    Ok(())
}

/// The cgroup name of a container id given with or without its `crabbox-`
/// prefix: the id is trimmed, stripped of the prefix once, must then be
/// non-empty, and gets the prefix back.
pub open spec fn cgroup_name_of(container_id: Seq<char>) -> Option<Seq<char>> {
    let t = trimmed(container_id);
    let id = if has_prefix(t, name_prefix()) {
        t.subrange(name_prefix().len() as int, t.len() as int)
    } else {
        t
    };
    if id.len() == 0 {
        None
    } else {
        Some(name_prefix() + id)
    }
}

/// The cgroup name `crabbox-<id>` of a container id given with or without
/// its prefix.
pub fn cgroup_name(container_id: &str) -> (r: Result<String, CgroupError>)
    ensures
        cgroup_name_of(container_id@) matches Some(n) ==> r matches Ok(name) && name@ == n,
        cgroup_name_of(container_id@) is None ==> r == Err::<String, CgroupError>(
            CgroupError::EmptyContainerId,
        ),
{
    let t = trim(container_id);
    let id = match strip_prefix(t, "crabbox-") {
        Some(rest) => rest,
        None => t,
    };
    if id.unicode_len() == 0 {
        return Err(CgroupError::EmptyContainerId);
    }
    let mut name = "crabbox-".to_owned();
    name.append(id);
    Ok(name)
}

/// Naming is idempotent: the name of a container's cgroup names the same
/// cgroup again.
pub proof fn lemma_cgroup_name_idempotent(container_id: Seq<char>)
    requires
        cgroup_name_of(container_id) is Some,
    ensures
        cgroup_name_of(cgroup_name_of(container_id)->0) == cgroup_name_of(container_id),
{
    reveal_strlit("crabbox-");
    let t = trimmed(container_id);
    lemma_trimmed_shape(container_id);
    let id = if has_prefix(t, name_prefix()) {
        t.subrange(name_prefix().len() as int, t.len() as int)
    } else {
        t
    };
    let n = name_prefix() + id;
    assert(id.last() == t.last());
    assert(n[0] == 'c');
    assert(n.last() == id.last());
    lemma_trimmed_shape(n);
    assert(has_prefix(n, name_prefix())) by {
        assert(n.subrange(0, 8) =~= name_prefix());
    }
    assert(n.subrange(8, n.len() as int) =~= id);
}

/// An id names the same cgroup with or without the `crabbox-` prefix.
pub proof fn lemma_cgroup_name_prefix_optional(id: Seq<char>)
    requires
        id.len() > 0,
        !is_white_space(id[0]),
        !is_white_space(id.last()),
        !has_prefix(id, name_prefix()),
    ensures
        cgroup_name_of(id) == Some(name_prefix() + id),
        cgroup_name_of(name_prefix() + id) == Some(name_prefix() + id),
{
    reveal_strlit("crabbox-");
    lemma_trimmed_shape(id);
    let n = name_prefix() + id;
    assert(n[0] == 'c');
    assert(n.last() == id.last());
    lemma_trimmed_shape(n);
    assert(has_prefix(n, name_prefix())) by {
        assert(n.subrange(0, 8) =~= name_prefix());
    }
    assert(n.subrange(8, n.len() as int) =~= id);
}

/// A container started with the id made from the clock reading `nanos`
/// is found again by its id given with or without the `crabbox-` prefix:
/// both name the cgroup `crabbox-<id>` that the container was put in.
pub proof fn lemma_generated_id_names_its_cgroup(nanos: u32)
    ensures
        cgroup_name_of(id_of_nanos(nanos)) == Some(name_prefix() + id_of_nanos(nanos)),
        cgroup_name_of(name_prefix() + id_of_nanos(nanos)) == Some(
            name_prefix() + id_of_nanos(nanos),
        ),
{
    reveal_strlit("crabbox-");
    let id = id_of_nanos(nanos);
    lemma_hex_digits_shape(nanos as nat, 8);
    assert(is_hex_digit(id[0]));
    assert(is_hex_digit(id[1]));
    assert(is_hex_digit(id[7]));
    if has_prefix(id, name_prefix()) {
        assert(id[1] == id.subrange(0, 8)[1]);
        assert(name_prefix()[1] == 'r');
    }
    lemma_cgroup_name_prefix_optional(id);
}

/// A write of `contents` to the cgroup file `file`.
#[derive(Debug, PartialEq, Eq)]
pub struct CgroupWrite {
    pub file: String,
    pub contents: String,
}

/// The controllers that the parent cgroup hands down to its children.
pub open spec fn subtree_controllers() -> Seq<char> {
    "+cpu +memory +pids"@
}

/// The write that enables the cpu, memory and pids controllers for the
/// containers' cgroups.
pub fn enable_controllers_write() -> (w: CgroupWrite)
    ensures
        w.file@ == cgroup_parent() + "/"@ + "cgroup.subtree_control"@,
        w.contents@ == subtree_controllers(),
{
    let mut file = parent_path();
    file.append("/");
    file.append("cgroup.subtree_control");
    CgroupWrite { file, contents: "+cpu +memory +pids".to_owned() }
}

/// A container's cgroup, by its directory.
pub struct Cgroup {
    path: String,
}

impl Cgroup {
    /// The directory of this cgroup.
    pub closed spec fn dir(&self) -> Seq<char> {
        self.path@
    }

    /// The cgroup of the container `container_id`:
    /// `<parent>/crabbox-<container_id>`.
    pub fn new(container_id: &str) -> (c: Cgroup)
        ensures
            c.dir() == cgroup_parent() + "/"@ + name_prefix() + container_id@,
    {
        let mut name = "crabbox-".to_owned();
        name.append(container_id);
        Self::named(name.as_str())
    }

    /// The cgroup called `name` under the parent directory.
    pub fn named(name: &str) -> (c: Cgroup)
        ensures
            c.dir() == cgroup_parent() + "/"@ + name@,
    {
        let mut path = parent_path();
        path.append("/");
        path.append(name);
        Cgroup { path }
    }

    /// The directory of this cgroup.
    pub fn path(&self) -> (p: &str)
        ensures
            p@ == self.dir(),
    {
        self.path.as_str()
    }

    /// The path of the file `file` of this cgroup.
    pub fn file(&self, file: &str) -> (p: String)
        ensures
            p@ == self.dir() + "/"@ + file@,
    {
        let mut p = self.path.clone();
        p.append("/");
        p.append(file);
        p
    }

    /// The write that limits the memory of this cgroup to `bytes`.
    pub fn set_memory_limit(&self, bytes: u64) -> (w: CgroupWrite)
        ensures
            w.file@ == self.dir() + "/"@ + "memory.max"@,
            w.contents@ == decimal(bytes as nat),
    {
        CgroupWrite { file: self.file("memory.max"), contents: u64_to_decimal(bytes) }
    }

    /// The write that gives this cgroup `quota` microseconds of CPU time in
    /// every period of `CPU_PERIOD` microseconds.
    pub fn set_cpu_limit(&self, quota: u64) -> (w: CgroupWrite)
        ensures
            w.file@ == self.dir() + "/"@ + "cpu.max"@,
            w.contents@ == decimal(quota as nat) + " "@ + decimal(CPU_PERIOD as nat),
    {
        let mut contents = u64_to_decimal(quota);
        contents.append(" ");
        let period = u64_to_decimal(CPU_PERIOD);
        contents.append(period.as_str());
        CgroupWrite { file: self.file("cpu.max"), contents }
    }

    /// The write that limits this cgroup to `max` processes.
    pub fn set_pids_limit(&self, max: u64) -> (w: CgroupWrite)
        ensures
            w.file@ == self.dir() + "/"@ + "pids.max"@,
            w.contents@ == decimal(max as nat),
    {
        CgroupWrite { file: self.file("pids.max"), contents: u64_to_decimal(max) }
    }

    /// The write that moves the process `pid` into this cgroup.
    pub fn add_pid(&self, pid: u32) -> (w: CgroupWrite)
        ensures
            w.file@ == self.dir() + "/"@ + "cgroup.procs"@,
            w.contents@ == decimal(pid as nat),
    {
        CgroupWrite { file: self.file("cgroup.procs"), contents: u64_to_decimal(pid as u64) }
    }

    /// The write that kills every process of this cgroup.
    pub fn kill_write(&self) -> (w: CgroupWrite)
        ensures
            w.file@ == self.dir() + "/"@ + "cgroup.kill"@,
            w.contents@ == "1"@,
    {
        CgroupWrite { file: self.file("cgroup.kill"), contents: "1".to_owned() }
    }
}

/// Reads the number that a cgroup file holds: its contents, trimmed, as a
/// decimal `u64`.
pub fn parse_cgroup_u64(file: &str, contents: &str) -> (r: Result<u64, CgroupError>)
    ensures
        u64_from_str(trimmed(contents@)) matches Some(n) ==> r == Ok::<u64, CgroupError>(n),
        u64_from_str(trimmed(contents@)) is None ==> (r matches Err(
            CgroupError::ParseFailed { file: f },
        ) && f@ == file@),
{
    match parse_u64(trim(contents)) {
        Some(n) => Ok(n),
        None => Err(CgroupError::ParseFailed { file: file.to_owned() }),
    }
}

/// A byte count as a cgroup file reports it.
#[derive(Debug, PartialEq, Eq)]
pub enum CgroupBytes {
    /// No limit.
    Max,
    /// A number of bytes.
    Bytes(u64),
    /// Something else, shown as it is.
    Raw(String),
}

/// Reads the value of a byte-count cgroup file such as `memory.max`: `max`
/// stands for no limit, a decimal number is a byte count, and anything else
/// is kept as it is.
pub fn classify_cgroup_bytes(value: &str) -> (r: CgroupBytes)
    ensures
        value@ == "max"@ ==> r == CgroupBytes::Max,
        value@ != "max"@ ==> match u64_from_str(value@) {
            Some(n) => r == CgroupBytes::Bytes(n),
            None => r matches CgroupBytes::Raw(s) && s@ == value@,
        },
{
    let v = value.to_owned();
    let max = "max".to_owned();
    if v == max {
        return CgroupBytes::Max;
    }
    match parse_u64(value) {
        Some(n) => CgroupBytes::Bytes(n),
        None => CgroupBytes::Raw(v),
    }
}

/// The unit that a byte count is shown in.
#[derive(Debug, Clone, Copy, PartialEq, Eq)]
pub enum ByteUnit {
    Gib,
    Mib,
    Kib,
    Byte,
}

/// The number of bytes in one of each unit.
pub open spec fn unit_size(u: ByteUnit) -> nat {
    match u {
        ByteUnit::Gib => 1073741824,
        ByteUnit::Mib => 1048576,
        ByteUnit::Kib => 1024,
        ByteUnit::Byte => 1,
    }
}

impl ByteUnit {
    /// The number of bytes in one of this unit.
    pub fn divisor(&self) -> (d: u64)
        ensures
            d == unit_size(*self),
    {
        match self {
            ByteUnit::Gib => 1073741824,
            ByteUnit::Mib => 1048576,
            ByteUnit::Kib => 1024,
            ByteUnit::Byte => 1,
        }
    }

    /// The letter that follows a count in this unit.
    pub fn suffix(&self) -> (c: char)
        ensures
            c == match *self {
                ByteUnit::Gib => 'G',
                ByteUnit::Mib => 'M',
                ByteUnit::Kib => 'K',
                ByteUnit::Byte => 'B',
            },
    {
        match self {
            ByteUnit::Gib => 'G',
            ByteUnit::Mib => 'M',
            ByteUnit::Kib => 'K',
            ByteUnit::Byte => 'B',
        }
    }
}

/// `u` is the unit that `bytes` is shown in: the count holds at least one
/// of it (unless it is bytes), and fewer than 1024 of it (unless it is the
/// largest unit).
pub open spec fn shown_in(bytes: nat, u: ByteUnit) -> bool {
    &&& unit_size(u) <= bytes || u == ByteUnit::Byte
    &&& u != ByteUnit::Gib ==> bytes < unit_size(u) * 1024
}

/// Each unit is 1024 of the next smaller one, starting from the byte.
pub proof fn lemma_unit_sizes_step_by_1024()
    ensures
        unit_size(ByteUnit::Byte) == 1,
        unit_size(ByteUnit::Kib) == 1024 * unit_size(ByteUnit::Byte),
        unit_size(ByteUnit::Mib) == 1024 * unit_size(ByteUnit::Kib),
        unit_size(ByteUnit::Gib) == 1024 * unit_size(ByteUnit::Mib),
{
}

/// A count below 1024⁴ bytes is shown as a number from 1 up to (not
/// including) 1024 in its unit: one of the unit is at most the count, and
/// 1024 of it exceed the count.
pub proof fn lemma_shown_count_in_range(bytes: nat, u: ByteUnit)
    requires
        shown_in(bytes, u),
        1 <= bytes < 1099511627776,
    ensures
        1 <= bytes / unit_size(u) < 1024,
        unit_size(u) <= bytes,
        bytes < 1024 * unit_size(u),
{
    match u {
        ByteUnit::Gib => {
            assert(1 <= bytes / 1073741824 < 1024) by (nonlinear_arith)
                requires
                    1073741824 <= bytes < 1099511627776,
            ;
        },
        ByteUnit::Mib => {
            assert(1 <= bytes / 1048576 < 1024) by (nonlinear_arith)
                requires
                    1048576 <= bytes < 1073741824,
            ;
        },
        ByteUnit::Kib => {
            assert(1 <= bytes / 1024 < 1024) by (nonlinear_arith)
                requires
                    1024 <= bytes < 1048576,
            ;
        },
        ByteUnit::Byte => {
            assert(bytes / 1 == bytes) by (nonlinear_arith);
        },
    }
}

/// The largest unit of which `bytes` holds at least one: the count is then
/// shown in that unit.
pub fn byte_unit(bytes: u64) -> (u: ByteUnit)
    ensures
        unit_size(u) <= bytes || u == ByteUnit::Byte,
        u != ByteUnit::Gib ==> bytes < unit_size(u) * 1024,
        shown_in(bytes as nat, u),
{
    if bytes >= 1073741824 {
        ByteUnit::Gib
    } else if bytes >= 1048576 {
        ByteUnit::Mib
    } else if bytes >= 1024 {
        ByteUnit::Kib
    } else {
        ByteUnit::Byte
    }
}

/// Whether the directory entry `name` is a container's cgroup, that is
/// whether it starts with `crabbox-`.
pub fn is_container_entry(name: &str) -> (b: bool)
    ensures
        b == has_prefix(name@, name_prefix()),
{
    starts_with(name, "crabbox-")
}

/// A byte count below one KiB as it is shown: its decimal numeral
/// followed by `B`.
pub fn format_byte_count(bytes: u64) -> (s: String)
    requires
        bytes < 1024,
    ensures
        s@ == decimal(bytes as nat) + "B"@,
{
    let mut s = u64_to_decimal(bytes);
    s.append("B");
    s
}

/// How many times the processes file is read while waiting for a killed
/// cgroup to empty.
pub const DRAIN_ATTEMPTS: u32 = 100;

/// What to do after reading the processes file of a killed cgroup.
#[derive(Debug, Clone, Copy, PartialEq, Eq)]
pub enum DrainAction {
    /// The cgroup is empty: remove its directory.
    Remove,
    /// Wait, then read the processes file again.
    SleepAndRetry,
    /// Wait, then remove the directory without reading again.
    SleepAndRemove,
}

/// The decision after the read number `attempt` (from 0) of the processes
/// file of a killed cgroup, where `procs` is what the read gave, if it
/// succeeded: an empty list of processes ends the wait; otherwise the wait
/// goes on until `DRAIN_ATTEMPTS` reads have been made.
pub fn drain_next(attempt: u32, procs: Option<&str>) -> (a: DrainAction)
    requires
        attempt < DRAIN_ATTEMPTS,
    ensures
        (procs matches Some(p) && trimmed(p@).len() == 0) ==> a == DrainAction::Remove,
        !(procs matches Some(p) && trimmed(p@).len() == 0) ==> a == (if attempt + 1
            < DRAIN_ATTEMPTS {
            DrainAction::SleepAndRetry
        } else {
            DrainAction::SleepAndRemove
        }),
{
    match procs {
        Some(p) => {
            if trim(p).unicode_len() == 0 {
                return DrainAction::Remove;
            }
        },
        None => {},
    }
    if attempt + 1 < DRAIN_ATTEMPTS {
        DrainAction::SleepAndRetry
    } else {
        DrainAction::SleepAndRemove
    }
}

} // verus!
