//! A parallel, resumable HTTP download engine: capability probing, chunk
//! planning, range fetching with resume, ordered reassembly, per-file retry
//! with backoff and bounded batch scheduling, each stated and proved. The
//! network, the disk and the clock stay with the caller, which performs the
//! actions these decisions ask for.

pub mod batch;
pub mod cli;
pub mod config;
pub mod error;
pub mod fetch;
pub mod merge;
pub mod plan;
pub mod probe;
pub mod progress;
pub mod retry;
pub mod template;
pub mod text;

pub use config::{Config, DownloadConfig};
pub use error::DownloadError;
pub use template::{apply_color, parse_template, render, Token};
