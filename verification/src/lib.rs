use vstd::prelude::*;

pub mod text;
pub mod cron;
pub mod i18n;
pub mod validation;
pub mod ui;
pub mod models;
pub mod anomaly;
pub mod protocol;
pub mod strmap;
pub mod config;
pub mod digest;
pub mod crypto;
pub mod paths;
pub mod ca;
pub mod device_id;
pub mod run_tracker;
pub mod json;
pub mod task_params;
pub mod clock;
pub mod retention;
pub mod scheduler;
pub mod session;
pub mod monitor;
pub mod download;
pub mod dir_sync;
pub mod decrypt_flow;
pub mod menu;
pub mod browse;

verus! {

} // verus!
