//! Streaming bridge for large, gzip-compressed HTTP response bodies.
//!
//! The crate turns a synchronous, CPU-bound producer (JSON serialization
//! feeding a gzip encoder) into an asynchronous, backpressure-respecting
//! byte stream: bytes are coalesced into fixed-capacity chunks, compressed,
//! and handed to a bounded queue whose receiving side becomes the HTTP
//! response body.

mod channel_writer;
mod coalesce;
mod configuration;
mod dockerflow;
mod double_buffer;
mod double_buffered_pipe;
mod download_tracker;
mod error;
mod gzip;
mod pipeline;
mod sink;
mod symbol_manager;

pub use channel_writer::{lemma_channel_messages, lemma_channel_write_appends, BlockingChannelWriter};
pub use coalesce::{lemma_coalesce_invariant, CoalescingBuffer};
pub use configuration::{digit_val, digits_value, fold_char, fold_chars, mantissa_digits, mantissa_digits_from, mantissa_safe, parse_optional_size, parsed_size, unsupported_environment_note, BreakpadSymbolSettings, Environment, QuotaSettings, ServerSettings, Settings, SymbolSettings, WindowsSymbolSettings};
pub use dockerflow::{version_error_prefix, version_file_not_found_note, VersionError};
pub use double_buffer::BufferExchange;
pub use double_buffered_pipe::{flushed_chunks, lemma_flush_idempotent, lemma_transport_invariant, RemoteBufWriter};
pub use download_tracker::DownloadUrlTable;
pub use error::StreamError;
pub use gzip::{crc32_of, gzip_header, lemma_gzip_invariant, GzipSink};
pub use pipeline::{build_stream_pipeline, lemma_pipeline_transport, StreamPipeline};
pub use sink::{sink_data, ChunkSink, VecSink};
pub use symbol_manager::{create_symbol_manager_config, spec_breakpad_directives, spec_symbol_directives, spec_windows_directives, SymbolDirective};
