//! The parts of a container's launch that are decided before any process
//! is forked: its announcement, its hostname, and the cgroup writes that
//! confine it.

use vstd::prelude::*;
use crate::cgroups::{Cgroup, CgroupWrite, CPU_PERIOD};
use crate::config::ContainerConfig;
use crate::text::{decimal, join, joined, views};

verus! {

/// The hostname that a container runs under: the one its configuration
/// resolved (the given name, or `crabbox-<id>` where none was given).
pub fn container_hostname(config: &ContainerConfig) -> (h: String)
    ensures
        h@ == config.hostname@,
{
    config.hostname.clone()
}

/// The lines announced when a container starts: its id and rootfs, then
/// its command line (the command, a space, and the arguments joined by
/// spaces).
pub fn start_messages(config: &ContainerConfig) -> (lines: Vec<String>)
    ensures
        lines@.len() == 2,
        lines@[0]@ == "[crabbox] starting container "@ + config.id@ + " with rootfs: "@
            + config.rootfs@,
        lines@[1]@ == "[crabbox] command: "@ + config.command@ + " "@ + joined(
            views(config.args@),
            " "@,
        ),
{
    let mut first = "[crabbox] starting container ".to_owned();
    first.append(config.id.as_str());
    first.append(" with rootfs: ");
    first.append(config.rootfs.as_str());
    let mut second = "[crabbox] command: ".to_owned();
    second.append(config.command.as_str());
    second.append(" ");
    let args = join(&config.args, " ");
    second.append(args.as_str());
    let mut lines: Vec<String> = Vec::new();
    lines.push(first);
    lines.push(second);
    lines
}

/// The writes that confine a container's process `pid` in `cgroup`, in
/// order: the memory limit, the CPU limit (as `cpu_quota` microseconds per
/// period), the process limit, each where the configuration sets it, and
/// last the move of the process into the cgroup. The quota is given exactly
/// when the configuration sets a CPU limit.
pub fn cgroup_writes(cgroup: &Cgroup, config: &ContainerConfig, cpu_quota: Option<u64>, pid: u32) -> (w: Vec<CgroupWrite>)
    requires
        cpu_quota is Some <==> config.cpu_limit_bits is Some,
    ensures
        w@.len() == (if config.memory_limit is Some { 1int } else { 0 }) + (if cpu_quota is Some {
            1int
        } else {
            0
        }) + (if config.pids_limit is Some { 1int } else { 0 }) + 1,
        w@.last().file@ == cgroup.dir() + "/"@ + "cgroup.procs"@,
        w@.last().contents@ == decimal(pid as nat),
        config.memory_limit matches Some(m) ==> w@[0].file@ == cgroup.dir() + "/"@
            + "memory.max"@ && w@[0].contents@ == decimal(m as nat),
        cpu_quota matches Some(q) ==> ({
            let k = if config.memory_limit is Some { 1int } else { 0 };
            w@[k].file@ == cgroup.dir() + "/"@ + "cpu.max"@ && w@[k].contents@ == decimal(q as nat)
                + " "@ + decimal(CPU_PERIOD as nat)
        }),
        config.pids_limit matches Some(p) ==> ({
            let k = (if config.memory_limit is Some { 1int } else { 0 }) + (if cpu_quota is Some {
                1int
            } else {
                0
            });
            w@[k].file@ == cgroup.dir() + "/"@ + "pids.max"@ && w@[k].contents@ == decimal(p as nat)
        }),
{
    let mut w: Vec<CgroupWrite> = Vec::new();
    match config.memory_limit {
        Some(m) => w.push(cgroup.set_memory_limit(m)),
        None => {},
    }
    match cpu_quota {
        Some(q) => w.push(cgroup.set_cpu_limit(q)),
        None => {},
    }
    match config.pids_limit {
        Some(p) => w.push(cgroup.set_pids_limit(p)),
        None => {},
    }
    w.push(cgroup.add_pid(pid));
    w
}

} // verus!
