//! Request checks, configuration text and decision logic of the DockPanel
//! server agent, with their contracts.

pub mod access_log;
pub mod apps;
pub mod backups;
pub mod cert_registry;
pub mod containers;
pub mod cron;
pub mod databases;
pub mod deploy;
pub mod expose;
pub mod files;
pub mod git;
pub mod gpu;
pub mod installers;
pub mod logs;
pub mod mail;
pub mod mail_settings;
pub mod mail_filters;
pub mod mail_log;
pub mod mail_queue;
pub mod mail_setup;
pub mod order;
pub mod php;
pub mod powerdns;
pub mod remote_backup;
pub mod security;
pub mod server_utils;
pub mod site;
pub mod site_rules;
pub mod ssl;
pub mod text;
pub mod update;
pub mod validation;
