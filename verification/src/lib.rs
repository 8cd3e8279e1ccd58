//! The decisions of a Wayland compositor and of its background launch client:
//! command lines, the steps of a background launch, capture sessions and the
//! frames that wait on them, the pacing of refreshes, child processes, and the
//! statistics of the main loop. What does the work that is decided on, such as
//! starting a process or calling a method on D-Bus, is not part of it.

pub mod background_launch;
pub mod capture_queue;
pub mod capture_sessions;
pub mod children;
pub mod command_line;
pub mod environment;
pub mod grammar;
pub mod main_loop_stats;
pub mod refresh;
pub mod startup;
pub mod state;
pub mod text;
pub mod time;
