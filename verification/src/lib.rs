pub mod text;
pub mod env;
pub mod step;
pub mod config;
pub mod kdl_doc;
pub mod kdl_tree;
pub mod config_editor;
pub mod edit_laws;
pub mod remote;
pub mod sync_plan;
pub mod backup_config;
pub mod task_run;
pub mod backup_run;
pub mod mount;
pub mod update;
pub mod credentials;
pub mod doctor;
pub mod tui_app;
pub mod tui_events;
pub mod remote_test;
pub mod remote_sync;
pub mod sync_job;
pub mod secrets_yaml;

pub use crate::backup_config::BackupConfig;
pub use crate::config::{config_path_from, secrets_path_from, xdg_config_home, LoadConfigError, Secrets, VivoConfig};
pub use crate::doctor::age_keys_path;
pub use crate::env::expand_env_vars;
pub use crate::config_editor::{add_remote, add_task, remove_remote, remove_task, set_default_task, RemoteSpec, TaskSpec};
