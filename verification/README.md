# Neural OS kernel core

The logic of a small RISC-V microkernel with a neural adaptive scheduler,
written in Verus: every function in `src/` carries a contract that Verus
proves.

- `capability` – capability tables: rights, generations, expiry, grants.
- `ipc` – messages, bounded FIFO wait queues, endpoints and their table.
- `thread`, `process`, `cpu`, `context`, `trapframe` – kernel objects.
- `scheduler` – priority/round-robin thread choice, preemption, the
  observer's task table.
- `kernel`, `syscall` – the kernel object graph, timer tick, reschedule and
  the syscall paths (send, receive, grant, create endpoint, exit).
- `ipc_laws` – rendezvous and capability guarantees across calls.
- `fixed`, `neural` – Q16.16 arithmetic and the fixed-point MLP with
  momentum SGD.
- `adaptive` – metrics history and preemption predictor of the adaptive
  scheduler.
- `storage` – checksummed weight image that survives restarts.
- `console`, `uart` – decimal digits and CR/LF expansion for the console.

`app/` holds what stays outside verification: floating-point conversions
and the Q-learning scheduler loop, the platform edge (UART, timer, raw
memory for `SYS_PRINT`) and a host demo. `tests/` exercises the library.
