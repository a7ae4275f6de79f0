//! Rules behind the HTTP endpoints.
pub mod admin;
pub mod admin_laws;
pub mod anthropic;
pub mod checks;
pub mod common;
pub mod download_laws;
pub mod download_run;
pub mod downloads;
pub mod event_laws;
pub mod gateway;
pub mod gguf;
pub mod gguf_files;
pub mod gguf_laws;
pub mod hf;
pub mod kv;
pub mod kv_laws;
pub mod messages;
pub mod openai;
pub mod request_laws;
pub mod response_laws;
pub mod start_laws;
pub mod stream;
pub mod stream_inputs;
pub mod stream_laws;
