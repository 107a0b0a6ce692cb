//! Decision logic of the OpenWorker desktop shell.
pub mod env_map;
pub mod keep_awake;
pub mod location;
pub mod platform;
pub mod prefs;
pub mod probe;
pub mod server;
pub mod shell;
pub mod sidecar_env;
pub mod text;
pub mod token;
pub mod update;
pub mod voice;
