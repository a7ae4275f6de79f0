//! Backend containers: their command lines, their settings and what to do with them.
pub mod launch_laws;
pub mod llamacpp;
pub mod runtime_overrides;
