//! The commands of the tool: what each decides, apart from the processes and files it touches.
pub mod cleanup_backups;
pub mod create_script;
pub mod custom;
pub mod custom_laws;
pub mod deploy;
pub mod doctor;
pub mod init;
pub mod init_laws;
pub mod install_claude;
pub mod install_deps;
pub mod merge;
pub mod merge_laws;
pub mod migrate;
pub mod migrate_laws;
pub mod module;
pub mod report_laws;
pub mod show_running;
pub mod status;
pub mod trust_ca;
pub mod trust_laws;
pub mod update;
pub mod update_laws;
pub mod update_plan_laws;
pub mod upgrade;
pub mod upkeep_laws;
pub mod user_manual;
