use vstd::prelude::*;

verus! {

/// The application's configuration, read at startup from a JSON file that
/// sits beside the executable. Absence of that file is fatal at startup.
#[derive(Debug)]
pub struct AppConfig {
    /// The DSN-like connection string for the remote error reporter.
    pub sentry_dsn: String,
}

} // verus!
