//! Resolves Linux-style WSL paths typed into Windows navigation surfaces.

pub mod appinstall;
pub mod command_laws;
pub mod control_laws;
pub mod evidence_laws;
pub mod exit_watchdog;
pub mod gc;
pub mod helper;
pub mod install;
pub mod input_laws;
pub mod install_laws;
pub mod instance;
pub mod json_laws;
pub mod navigation;
pub mod options;
pub mod package;
pub mod path;
pub mod path_laws;
pub mod percent;
pub mod powershell_policy;
pub mod registry_laws;
pub mod relaunch;
pub mod report;
pub mod report_laws;
pub mod resolution_laws;
pub mod settings;
pub mod settings_write;
pub mod sha256;
pub mod state_watch;
pub mod store;
pub mod system;
pub mod target;
pub mod target_laws;
pub mod task_laws;
pub mod text;
pub mod tray;
pub mod update;
pub mod update_laws;
pub mod update_reply;
pub mod verification;
pub mod window_laws;
pub mod window_model;
pub mod window_state;
pub mod window_view;

