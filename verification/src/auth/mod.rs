//! Who may do what.
pub mod bootstrap;
pub mod login_laws;
pub mod oidc;
pub mod rate_limit;
pub mod session;
