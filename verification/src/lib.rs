//! Decisions and text handling of a Kindle jailbreak manager: the jobs it
//! runs on the device, how their shell commands are interpreted, and the
//! state machine that drives a job one command at a time.
pub mod text;
pub mod process;
pub mod job;
pub mod ssh;
pub mod ota;
pub mod device;
