//! Light and fast per-project Debian VMs: the rules behind the `sendit`
//! command, without the files, processes and devices it drives.
pub mod acceptance_laws;
pub mod assets;
pub mod cli;
pub mod commands;
pub mod commands_laws;
pub mod component_laws;
pub mod config;
pub mod config_error;
pub mod config_laws;
pub mod disk;
pub mod foreign;
pub mod host;
pub mod image;
pub mod image_laws;
pub mod listing;
pub mod lookup_laws;
pub mod message_laws;
pub mod mount_spec;
pub mod mounts;
pub mod naming_laws;
pub mod number;
pub mod order;
pub mod path;
pub mod path_laws;
pub mod paths;
pub mod project_vm;
pub mod provision;
pub mod provision_laws;
pub mod provision_table;
pub mod provision_table_laws;
pub mod report_laws;
pub mod run_laws;
pub mod seed;
pub mod session;
pub mod settings;
pub mod share_laws;
pub mod sign;
pub mod size;
pub mod size_laws;
pub mod status;
pub mod table;
pub mod text;
pub mod text_laws;
pub mod util;
pub mod view_laws;
pub mod vm;
