//! Glide's dictation core: configuration rules, the model catalog and its
//! smart defaults, local model asset bookkeeping, download lifecycles and the
//! text clean-up steps of the dictation pipeline.
pub mod text;
pub mod provider;
pub mod lifecycle;
pub mod config;
pub mod pipeline;
pub mod llm;
pub mod error;
pub mod local_models;
pub mod stt;
pub mod parakeet;
pub mod catalog;
pub mod defaults;
pub mod remote;
pub mod sorting;
pub mod state;
pub mod net;
pub mod model_check;
