//! The bootstrap administrator.
use vstd::prelude::*;
use crate::config::AppConfig;

verus! {

/// Whether the bootstrap administrator may log in.
pub open spec fn bootstrap_active(config: AppConfig) -> bool {
    config.break_glass && config.bootstrap_set()
}

/// Whether the bootstrap administrator may log in: only when that is switched on and both
/// credentials are set.
pub fn is_bootstrap_active(config: &AppConfig) -> (r: bool)
    ensures
        r == bootstrap_active(*config),
{
    config.break_glass && config.has_bootstrap_creds()
}

/// Checks bootstrap credentials; else says why they are refused.
pub fn validate_bootstrap(config: &AppConfig, username: &str, password: &str) -> (r: Result<
    (),
    &'static str,
>)
    ensures
        match r {
            Ok(_) => bootstrap_active(*config) && config.bootstrap_matches(username@, password@),
            Err(e) => if !bootstrap_active(*config) {
                e@ == "Bootstrap authentication is not active"@
            } else {
                !config.bootstrap_matches(username@, password@) && e@
                    == "Invalid bootstrap credentials"@
            },
        },
{
    if !is_bootstrap_active(config) {
        return Err("Bootstrap authentication is not active");
    }
    if !config.validate_bootstrap_creds(username, password) {
        return Err("Invalid bootstrap credentials");
    }
    Ok(())
}

} // verus!
