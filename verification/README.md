# starry_syscalls

System-call logic of a small monolithic kernel, verified with Verus.

`src/` is the verified library. Each module holds the state that a group of
calls works on, as plain values, along with the calls themselves and their
contracts:

- `fd_table`: the descriptor table and `close`, `close_range`, `dup`, `dup2`, `dup3`;
- `fd_ops`: `open` flags, `fcntl`, and releasing record locks;
- `flock`: POSIX record locks per inode (`F_GETLK`, `F_SETLK`, `F_SETLKW`);
- `bpf`: array, hash and ring-buffer maps and the programs that write into them;
- `timerfd`: timer file descriptors;
- `time`: clocks, `adjtimex`, `times`, interval timers;
- `creds`: ids, `umask`, capabilities, `prctl`, `uname`, `sysinfo`, `getrandom`, `acct`;
- `mount`: which file systems can be mounted, and the read-only mount points;
- `net`: raw IPv6 sockets that exchange packets through an in-kernel queue,
  and packet sockets;
- `dispatch`: decoding system-call numbers and routing them: unknown and
  unimplemented calls, and the POSIX timer calls, are answered here;
- `byte_order`: the machine's byte order, learned once, and integer encodings in it;
- `abi`, `error`: the numbers of the Linux interface and the error kinds.

Each module ends with its laws: proof functions that state what holds across
calls, such as that a lookup gives back what an update stored, or that
`F_GETLK` reports the very lock that `F_SETLK` would meet.

`app/` is the kernel glue around the library: it reads arguments out of user
memory, asks the running kernel for clocks, tasks and file systems (the
`KernelEnv` trait), and runs the handler that the library's routing picks.

`tests/` runs the library on concrete inputs.
