//! Keeps the logins of several Codex accounts, and switches between them.
//!
//! Everything here decides and computes. What touches the disk, the clock, other processes or the
//! network is asked for: an operation is a procedure that says which [`effects::Action`] it needs
//! next, and goes on with the [`effects::Event`] that came of it. Each procedure has a
//! specification over views, which its `ensures` states, and the laws follow it through any course
//! of events that [`world`] allows: failures, interruptions, a login that changes underneath.
//!
//! - `vault`, `accounts`, `credentials`, `backups`: saved accounts, and the active login.
//! - `recovery`, `child_process`: what an interrupted run left behind.
//! - `login`, `commands`: a login from its request to its end, switching, querying saved accounts.
//! - `app_server`, `usage_cache`, `usage_error`: the usage of an account.
//! - `codex_desktop`, `runtime`, `durable`, `paths`: the application, the program, files.
//! - `vault_laws`, `exchange_laws`, `backup_laws`, `account_laws`, `index_laws`, `switch_laws`,
//!   `login_laws`, `home_laws`, `recovery_laws`, `report_laws`, `cleanup_laws`, `startup_laws`,
//!   `rerun_laws`, `success_laws`: what holds of these procedures as a whole.
//! - `command_laws`, `usage_laws`, `restart_laws`, `runtime_laws`, `path_laws`, `text_laws`: what
//!   is asked for in the [`courses`] of the others, and what they tell.

pub mod account_laws;
pub mod accounts;
pub mod app_server;
pub mod backup_laws;
pub mod backups;
pub mod bytes;
pub mod child_process;
pub mod cleanup_laws;
pub mod codex_desktop;
pub mod command_laws;
pub mod commands;
pub mod courses;
pub mod credentials;
pub mod digest;
pub mod durable;
pub mod effects;
pub mod exchange_laws;
pub mod home_laws;
pub mod index_laws;
pub mod json;
pub mod login;
pub mod login_laws;
pub mod path_laws;
pub mod paths;
pub mod recovery;
pub mod recovery_laws;
pub mod report_laws;
pub mod rerun_laws;
pub mod restart_laws;
pub mod runtime;
pub mod runtime_laws;
pub mod startup_laws;
pub mod success_laws;
pub mod switch_laws;
pub mod text;
pub mod text_laws;
pub mod usage_cache;
pub mod usage_error;
pub mod usage_laws;
pub mod vault;
pub mod vault_laws;
pub mod world;
