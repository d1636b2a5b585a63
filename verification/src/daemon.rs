//! The daemon's decisions: what becomes of a packet that came in, and what
//! a consumer's worker does next.
//!
//! The daemon's threads accept connections, read and write; between two such
//! acts they ask here what to do.

use crate::broadcast::{Broadcaster, ConsumerHandle, Delivered, Delivery, Hub};
use crate::client::{invoked_name, log_error, record_of};
use crate::record::{LogLine, LogPriority, Record, Timestamp};
use crate::render::{format_log, shown, Paint};
use crate::wire::{decode, decoded_packet, encoded, outcome_view, packet_view, DecodeError, EncodeError};
use vstd::prelude::*;

verus! {

/// Where producers hand in their records, one for each connection.
pub const LOG_INPUT_ADDR: &'static str = "127.0.0.1:4001";

/// Where subscribers connect to be sent every record from then on.
pub const LOG_OUTPUT_ADDR: &'static str = "127.0.0.1:4002";

/// The file that the file sink writes.
pub const LOG_PATH: &'static str = "/var/log/dogd";

/// What the daemon reports when it cannot open the file of the file sink.
pub const SINK_FAILURE: &'static str = "Failed to open or create log file";

/// What became of a packet.
#[derive(Clone, Copy, Debug, PartialEq, Eq)]
pub enum Ingest {
    /// It held a record, which was rendered and published.
    Published,
    /// It held no record and was passed over.
    Dropped(DecodeError),
    /// It held a record, which the broadcaster refused: it is closed.
    Refused,
}

/// What came of one connection of a producer.
#[derive(Debug, PartialEq, Eq)]
pub enum Inbound {
    /// The connection could not be accepted, or not read to its end as text.
    Lost,
    /// All that the producer sent.
    Packet(String),
}

/// What the listener does after a connection.
#[derive(Clone, Copy, Debug, PartialEq, Eq, Structural)]
pub enum Listening {
    /// Accept the next connection.
    Accept,
    /// Give up: the daemon can no longer deliver what it takes in.
    Abort,
}

/// What a consumer's worker does next.
#[derive(Debug, PartialEq, Eq)]
pub enum Turn {
    /// Write this text to the consumer's endpoint, then say how it went.
    Write(String),
    /// Nothing is pending: wait for the next publish, then ask again.
    Wait,
    /// Stop: nothing more will come. The consumer has been detached.
    Stop,
}

/// Whether `after` is `before` with `record` published, rendered for
/// display with its markers painted in some way.
pub open spec fn took(before: Hub, after: Hub, record: Record) -> bool {
    ||| after == before.publish(shown(record, Paint::Plain))
    ||| after == before.publish(shown(record, Paint::Coloured))
    ||| after == before.publish(shown(record, Paint::Fading))
}

/// Publishes a record that was decoded, rendered for display; passes over
/// what did not decode.
///
/// Where there is no record the broadcaster stays as it is. A record is
/// rendered as by [`format_log`], with or without colour as the terminal
/// settings have it, and published; a closed broadcaster refuses it.
pub fn publish_decoded(hub: &mut Broadcaster, decoded: &Result<LogLine, DecodeError>) -> (outcome:
    Ingest)
    requires
        old(hub).wf(),
    ensures
        final(hub).wf(),
        match outcome_view(*decoded) {
            Err(error) => outcome == Ingest::Dropped(error) && final(hub)@ == old(hub)@,
            Ok(record) => {
                &&& outcome == if old(hub)@.closed {
                    Ingest::Refused
                } else {
                    Ingest::Published
                }
                &&& took(old(hub)@, final(hub)@, record)
            },
        },
{
    match decoded {
        Err(error) => Ingest::Dropped(*error),
        Ok(record) => {
            let text = format_log(record);
            match hub.publish(text.as_str()) {
                Ok(()) => Ingest::Published,
                Err(_) => Ingest::Refused,
            }
        },
    }
}

/// Takes in one packet: decodes it and, if it holds a record, publishes the
/// record rendered for display.
///
/// A packet that holds no record, one with an unknown priority among them,
/// leaves the broadcaster as it is: nothing of it reaches any consumer.
pub fn ingest(hub: &mut Broadcaster, packet: &str) -> (outcome: Ingest)
    requires
        old(hub).wf(),
    ensures
        final(hub).wf(),
        match decoded_packet(packet@) {
            Err(error) => outcome == Ingest::Dropped(error) && final(hub)@ == old(hub)@,
            Ok(record) => {
                &&& outcome == if old(hub)@.closed {
                    Ingest::Refused
                } else {
                    Ingest::Published
                }
                &&& took(old(hub)@, final(hub)@, record)
            },
        },
{
    let decoded = decode(packet);
    publish_decoded(hub, &decoded)
}

/// Whether the listener gives up after a packet.
pub open spec fn gives_up(hub: Broadcaster, inbound: Inbound) -> bool {
    inbound matches Inbound::Packet(packet) && decoded_packet(packet@) is Ok && hub@.closed
}

/// Deals with what came of one producer connection.
///
/// A lost connection and a packet without a record are passed over, and the
/// listener accepts the next connection. A record is published. Only when
/// the broadcaster refuses a record does the listener give up.
pub fn on_connection(hub: &mut Broadcaster, inbound: &Inbound) -> (next: Listening)
    requires
        old(hub).wf(),
    ensures
        final(hub).wf(),
        next == if gives_up(*old(hub), *inbound) {
            Listening::Abort
        } else {
            Listening::Accept
        },
        match *inbound {
            Inbound::Lost => final(hub)@ == old(hub)@,
            Inbound::Packet(packet) => match decoded_packet(packet@) {
                Err(_) => final(hub)@ == old(hub)@,
                Ok(record) => took(old(hub)@, final(hub)@, record),
            },
        },
{
    match inbound {
        Inbound::Lost => Listening::Accept,
        Inbound::Packet(packet) => match ingest(hub, packet.as_str()) {
            Ingest::Refused => Listening::Abort,
            _ => Listening::Accept,
        },
    }
}

/// Asks what the worker of a consumer does next, and takes the text to
/// write off the consumer's queue.
///
/// When nothing more will come, the consumer is detached.
pub fn next_turn(hub: &mut Broadcaster, handle: &ConsumerHandle) -> (turn: Turn)
    requires
        old(hub).wf(),
    ensures
        final(hub).wf(),
        match old(hub)@.next(handle.number()) {
            Delivered::Text(text) => {
                &&& turn matches Turn::Write(out)
                &&& out@ == text
                &&& final(hub)@ == old(hub)@.receive(handle.number())
            },
            Delivered::Idle => turn == Turn::Wait && final(hub)@ == old(hub)@,
            Delivered::Closed => turn == Turn::Stop && final(hub)@ == old(hub)@.unsubscribe(
                handle.number(),
            ),
        },
{
    match hub.receive(handle) {
        Delivery::Text(text) => Turn::Write(text),
        Delivery::Idle => Turn::Wait,
        Delivery::Closed => {
            hub.detach(handle);
            Turn::Stop
        },
    }
}

/// Takes note of how a write to a consumer's endpoint went, and says
/// whether the worker goes on.
///
/// The first write that fails ends the consumer: it is detached at once,
/// and what was pending for it is dropped.
pub fn after_write(hub: &mut Broadcaster, handle: &ConsumerHandle, written: bool) -> (go_on: bool)
    requires
        old(hub).wf(),
    ensures
        final(hub).wf(),
        go_on == written,
        final(hub)@ == if written {
            old(hub)@
        } else {
            old(hub)@.unsubscribe(handle.number())
        },
{
    if !written {
        hub.detach(handle);
    }
    written
}

/// Gives up the file sink, whose file could not be opened: detaches its
/// consumer and makes the packet that reports the failure as an error of
/// the daemon. The rest of the daemon is not touched.
pub fn sink_unavailable(
    hub: &mut Broadcaster,
    handle: &ConsumerHandle,
    invoked_as: Option<&str>,
    now: Timestamp,
) -> (report: Result<String, EncodeError>)
    requires
        old(hub).wf(),
    ensures
        final(hub).wf(),
        final(hub)@ == old(hub)@.unsubscribe(handle.number()),
        packet_view(report) == encoded(
            record_of(SINK_FAILURE@, invoked_name(invoked_as), LogPriority::Error, now),
        ),
{
    hub.detach(handle);
    log_error(SINK_FAILURE, invoked_as, now)
}

} // verus!
