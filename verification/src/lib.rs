pub mod value;
pub mod merge;
pub mod codec;
pub mod time;
pub mod reply;
pub mod operation;
pub mod aas_interfaces;
pub mod database;
pub mod onboarding;
pub mod handlers;
pub mod state;
pub mod scheduler_task;
pub mod store;
pub mod push_run;
