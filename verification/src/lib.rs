//! Core of a local log-aggregation daemon and of its client helper.
//!
//! Producers build a [`LogLine`], encode it as one TOML document and hand it to
//! the daemon. The daemon decodes the document, renders the record as prefixed
//! text lines and publishes the text through a [`Broadcaster`], from which every
//! attached consumer reads the records published after it subscribed, in
//! publish order.
//!
//! Everything here works on plain values; sockets, files, threads and the
//! clock belong to the program around this library.

pub mod broadcast;
pub mod client;
pub mod daemon;
pub mod delivery;
pub mod record;
pub mod render;
pub mod text;
pub mod wire;

pub use broadcast::{Broadcaster, ConsumerHandle, Delivery, PublishError};
pub use client::{
    curr_program, forward_line, local_echo, log_critical, log_debug, log_error, log_info,
    log_rust_error, post_log, should_report, stream_priority, ChildStream, PostFailure,
    POST_FAILURE_NOTICE,
};
pub use daemon::{
    after_write, ingest, next_turn, on_connection, publish_decoded, sink_unavailable, Inbound,
    Ingest, Listening, Turn, LOG_INPUT_ADDR, LOG_OUTPUT_ADDR, LOG_PATH, SINK_FAILURE,
};
pub use record::{LogLine, LogPriority, Timestamp};
pub use render::{format_log, level_marker, render_with};
pub use wire::{decode, decode_table, encode, DecodeError, EncodeError};
