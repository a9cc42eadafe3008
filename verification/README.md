# crabbox

A mini container runtime: processes isolated with `pivot_root`, PID, mount
and UTS namespaces, and cgroups v2 limits.

- `src/` is the verified library. It holds every decision the runtime makes:
  reading memory limits (`64M`, `1G`, `512k`), resolving hostnames, making
  container ids, validating a configuration from flags or a TOML file, naming
  cgroups and the files and contents that configure them, reading the values
  the kernel reports, and the argument vector and environment a container's
  process is executed with.
- `app/` is the command-line program around it: argument parsing, the TOML
  file, the system calls (`unshare`, `fork`, `mount`, `pivot_root`,
  `execvpe`), and the reads and writes under `/sys/fs/cgroup`.
- `tests/` exercises the library on concrete values.
