use vstd::prelude::*;
use vstd::string::StringExecFns;
use crate::app_config::AppConfig;

verus! {

/// The fixed name of the configuration file, expected beside the executable.
pub const APP_CONFIG_FILE_NAME: &'static str = "app-config.json";

/// The log file's location relative to the executable's directory.
pub const LOG_FILE_NAME: &'static str = "log/log.txt";

/// The size at which the log file is rotated.
pub const LOG_FILE_MAX_LENGTH: u64 = 1024000;

/// The context the program builds once at startup and hands to the loops and
/// the runner. The handles to the collaborators that do input and output (the
/// logger, the remote error reporter) live with the caller; here are the plain
/// values the decisions read. A directory is carried as the string of its
/// path.
pub struct Global {
    pub app_config: AppConfig,
    pub config_directory: String,
}

/// Builds the startup context from the loaded configuration and the
/// executable's directory.
pub fn create_global(app_config: AppConfig, config_directory: String) -> (g: Global)
    ensures
        g.app_config == app_config,
        g.config_directory == config_directory,
{
    Global { app_config, config_directory }
}

/// The configuration the context carries.
pub fn app_config(g: &Global) -> (r: &AppConfig)
    ensures
        r == &g.app_config,
{
    &g.app_config
}

/// Where the configuration file is expected: directly in the executable's
/// directory, under its fixed name.
pub fn config_file_path(config_directory: &str) -> (r: String)
    ensures
        r@ == config_directory@ + "/"@ + APP_CONFIG_FILE_NAME@,
{
    let mut r = config_directory.to_owned();
    r.append("/");
    r.append(APP_CONFIG_FILE_NAME);
    r
}

/// Where the log file is kept, relative to the executable's directory.
pub fn log_file_path(config_directory: &str) -> (r: String)
    ensures
        r@ == config_directory@ + "/"@ + LOG_FILE_NAME@,
{
    let mut r = config_directory.to_owned();
    r.append("/");
    r.append(LOG_FILE_NAME);
    r
}

} // verus!
