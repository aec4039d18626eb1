//! The configuration that the probe engine runs with.
use vstd::prelude::*;

verus! {

pub struct Config {
    pub server: ConfigServer,
    pub report: ConfigReport,
}

pub struct ConfigServer {
    pub log_level: String,
}

/// Where reports go, and the token that authenticates them.
pub struct ConfigReport {
    pub endpoint: String,
    pub token: String,
}

/// The log level when the configuration names none.
pub fn server_log_level() -> (r: String)
    ensures
        r@ == "warn"@,
{
    String::from_str("warn")
}

/// The status service endpoint when the configuration names none.
pub fn report_endpoint() -> (r: String)
    ensures
        r@ == "https://report.crisp.watch/v1"@,
{
    String::from_str("https://report.crisp.watch/v1")
}

} // verus!
