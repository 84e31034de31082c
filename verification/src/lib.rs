pub mod config;
pub mod fixed;
pub mod capability;
pub mod trapframe;
pub mod context;
pub mod ipc;
pub mod neural;
pub mod thread;
pub mod process;
pub mod cpu;
pub mod scheduler;
pub mod kernel;
pub mod syscall;
pub mod storage;
pub mod adaptive;
pub mod console;
pub mod uart;
pub mod ipc_laws;
