//! The producer's side: from a message to the packet that goes to the
//! daemon's ingest endpoint.
//!
//! Nothing here sends anything. The caller reads the clock and the name it
//! was invoked under, gets the packet to send, and tells [`should_report`]
//! how the sending went.

use crate::record::{LogLine, LogPriority, Record, Timestamp};
use crate::render::{format_log, shown, Paint};
use crate::text::{last_piece, split, trim, trimmed};
use crate::wire::{encode, encoded, packet_view, EncodeError};
use vstd::prelude::*;
use vstd::string::StringExecFns;

verus! {

/// What stands on the diagnostic stream before the reason, when a message
/// could not be posted.
pub const POST_FAILURE_NOTICE: &'static str = "libdogd: Failed to post log message!";

/// The name of a program invoked as `path`: what follows the last slash.
pub open spec fn program_name(path: Seq<char>) -> Seq<char> {
    split(path, '/').last()
}

/// The name that a process goes by, given the path it was invoked under, if
/// that is known.
pub open spec fn invoked_name(invoked_as: Option<&str>) -> Seq<char> {
    match invoked_as {
        Some(path) => program_name(path@),
        None => program_name("<unknown>"@),
    }
}

/// The record of a message.
pub open spec fn record_of(
    line: Seq<char>,
    prog_name: Seq<char>,
    priority: LogPriority,
    now: Timestamp,
) -> Record {
    Record {
        text: line,
        source_name: prog_name,
        priority,
        secs: now.seconds(),
        nanos: now.subsec(),
    }
}

/// The texts of `sources`, each with a newline after it.
pub open spec fn source_lines(sources: Seq<String>) -> Seq<char> {
    sources.map_values(|source: String| source@ + seq!['\n']).flatten()
}

/// The message for an error and what was being done when it came up: the
/// description, the error and the errors that led to it, one line each.
pub open spec fn error_report(description: Seq<char>, err: Seq<char>, sources: Seq<String>) -> Seq<
    char,
> {
    description + seq!['\n'] + err + seq!['\n'] + source_lines(sources)
}

/// The name under which the running program logs: the last component of
/// the path it was invoked under, or of `<unknown>` when there is none.
pub fn curr_program(invoked_as: Option<&str>) -> (name: String)
    ensures
        name@ == invoked_name(invoked_as),
{
    match invoked_as {
        Some(path) => last_piece(path, '/'),
        None => last_piece("<unknown>", '/'),
    }
}

/// The packet that posts `line` for the program `prog_name`: the encoding of
/// the record made of the four arguments.
pub fn post_log(line: &str, prog_name: &str, priority: LogPriority, now: Timestamp) -> (packet:
    Result<String, EncodeError>)
    ensures
        packet_view(packet) == encoded(record_of(line@, prog_name@, priority, now)),
{
    let record = LogLine {
        line: line.to_owned(),
        prog_name: prog_name.to_owned(),
        priority,
        time: now,
    };
    encode(&record)
}

/// The packet that posts `line` as critical, for the running program.
pub fn log_critical(line: &str, invoked_as: Option<&str>, now: Timestamp) -> (packet: Result<
    String,
    EncodeError,
>)
    ensures
        packet_view(packet) == encoded(
            record_of(line@, invoked_name(invoked_as), LogPriority::Critical, now),
        ),
{
    post_log(line, curr_program(invoked_as).as_str(), LogPriority::Critical, now)
}

/// The packet that posts `line` as an error, for the running program.
pub fn log_error(line: &str, invoked_as: Option<&str>, now: Timestamp) -> (packet: Result<
    String,
    EncodeError,
>)
    ensures
        packet_view(packet) == encoded(
            record_of(line@, invoked_name(invoked_as), LogPriority::Error, now),
        ),
{
    post_log(line, curr_program(invoked_as).as_str(), LogPriority::Error, now)
}

/// The packet that posts `line` as information, for the running program.
pub fn log_info(line: &str, invoked_as: Option<&str>, now: Timestamp) -> (packet: Result<
    String,
    EncodeError,
>)
    ensures
        packet_view(packet) == encoded(
            record_of(line@, invoked_name(invoked_as), LogPriority::Info, now),
        ),
{
    post_log(line, curr_program(invoked_as).as_str(), LogPriority::Info, now)
}

/// The packet that posts `line` for debugging, for the running program.
pub fn log_debug(line: &str, invoked_as: Option<&str>, now: Timestamp) -> (packet: Result<
    String,
    EncodeError,
>)
    ensures
        packet_view(packet) == encoded(
            record_of(line@, invoked_name(invoked_as), LogPriority::Debug, now),
        ),
{
    post_log(line, curr_program(invoked_as).as_str(), LogPriority::Debug, now)
}

/// The packet that posts an error, for the running program.
///
/// `err` is the error as text, `sources` are the errors that led to it, the
/// nearest first, and `description` says what was being done. The message
/// holds the description, the error and each of the sources, one line each.
pub fn log_rust_error(
    err: &str,
    sources: &Vec<String>,
    description: &str,
    priority: LogPriority,
    invoked_as: Option<&str>,
    now: Timestamp,
) -> (packet: Result<String, EncodeError>)
    ensures
        packet_view(packet) == encoded(
            record_of(
                error_report(description@, err@, sources@),
                invoked_name(invoked_as),
                priority,
                now,
            ),
        ),
{
    proof {
        reveal_strlit("\n");
    }
    let mut message = description.to_owned();
    message.append("\n");
    message.append(err);
    message.append("\n");
    let ghost head = message@;
    let ghost line = |source: String| source@ + seq!['\n'];
    let mut i: usize = 0;
    while i < sources.len()
        invariant
            i <= sources.len(),
            "\n"@ == seq!['\n'],
            line == |source: String| source@ + seq!['\n'],
            message@ == head + source_lines(sources@.take(i as int)),
        decreases sources.len() - i,
    {
        proof {
            let upto = sources@.take(i + 1);
            assert(upto.map_values(line) =~= sources@.take(i as int).map_values(line).push(
                line(sources@[i as int]),
            ));
            sources@.take(i as int).map_values(line).lemma_flatten_push(line(sources@[i as int]));
        }
        message.append(sources[i].as_str());
        message.append("\n");
        i += 1;
    }
    assert(sources@.take(i as int) =~= sources@);
    post_log(message.as_str(), curr_program(invoked_as).as_str(), priority, now)
}

/// What a producer shows of its own message when it is asked to echo what it
/// posts: the rendered record without the white space at its ends.
pub fn local_echo(record: &LogLine) -> (echo: String)
    ensures
        echo@ == trim(shown(record@, Paint::Plain)) || echo@ == trim(
            shown(record@, Paint::Coloured),
        ) || echo@ == trim(shown(record@, Paint::Fading)),
{
    let shown = format_log(record);
    trimmed(shown.as_str())
}

/// Why a message did not reach the daemon.
#[derive(Clone, Copy, Debug, PartialEq, Eq)]
pub enum PostFailure {
    /// The record has no encoding.
    Encode(EncodeError),
    /// Nothing listens at the ingest endpoint.
    ConnectionRefused,
    /// Connecting or writing failed in any other way.
    Io,
}

/// Whether a failure to post is worth a line on the diagnostic stream.
///
/// That no daemon is listening is not: a program logs whether or not
/// anybody collects its logs. Every other failure is.
pub fn should_report(failure: &PostFailure) -> (report: bool)
    ensures
        report == !(failure is ConnectionRefused),
{
    match failure {
        PostFailure::ConnectionRefused => false,
        _ => true,
    }
}

/// The two output streams of a wrapped command.
#[derive(Clone, Copy, Debug, PartialEq, Eq, Structural)]
pub enum ChildStream {
    Stdout,
    Stderr,
}

/// The priority under which the lines of a stream are posted.
pub open spec fn stream_level(stream: ChildStream) -> LogPriority {
    match stream {
        ChildStream::Stdout => LogPriority::Info,
        ChildStream::Stderr => LogPriority::Error,
    }
}

/// The priority under which the lines of `stream` are posted: what a
/// command prints is information, what it prints as errors is an error.
pub fn stream_priority(stream: ChildStream) -> (priority: LogPriority)
    ensures
        priority == stream_level(stream),
{
    match stream {
        ChildStream::Stdout => LogPriority::Info,
        ChildStream::Stderr => LogPriority::Error,
    }
}

/// Takes a line read from a wrapped command out of `buf` and makes the
/// packet that posts it under the command's name.
///
/// The line goes as it was read, its newline included. An empty buffer is
/// the end of the stream: there is nothing to post.
pub fn forward_line(buf: &mut String, name: &str, stream: ChildStream, now: Timestamp) -> (packet:
    Option<Result<String, EncodeError>>)
    ensures
        final(buf)@ == Seq::<char>::empty(),
        old(buf)@.len() == 0 <==> packet is None,
        packet matches Some(made) ==> packet_view(made) == encoded(
            record_of(old(buf)@, name@, stream_level(stream), now),
        ),
{
    if buf.as_str().is_empty() {
        return None;
    }
    let made = post_log(buf.as_str(), name, stream_priority(stream), now);
    *buf = String::new();
    Some(made)
}

} // verus!
