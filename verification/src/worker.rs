//! The connection worker's decision logic: what one connection does with
//! each event its codec hands back, against the shared store.

use crate::command::Command;
use crate::command::Frame;
use crate::command::ParseError;
use crate::command::RequestModel;
use crate::command::Response;
use crate::command::parse;
use crate::command::parse_model;
use crate::store::Shard;
use crate::store::Store;
use crate::store::route_spec;
use vstd::prelude::*;

verus! {

/// What the codec reported when asked for the next request.
#[derive(Debug, PartialEq, Eq)]
pub enum Event {
    /// A complete request frame was decoded.
    Request(Frame),
    /// The stream ended cleanly with no partial message pending.
    Closed,
    /// The bytes on the wire could not be decoded.
    Malformed,
}

/// Why a connection ends early. Every such error is local to its own
/// connection: the worker stops, the store and all other connections are
/// untouched.
#[derive(Debug, PartialEq, Eq)]
pub enum ConnError {
    /// The bytes on the wire were no well-formed request; the stream cannot
    /// be resynchronized mid-way, so the connection is given up.
    Decode,
    /// A well-shaped command the store does not implement, by name. In
    /// scope this too is fatal to the connection, deliberately, rather than
    /// silently ignored.
    Unsupported { name: String },
}

/// What the worker decides to do with one event.
#[derive(Debug, PartialEq, Eq)]
pub enum Outcome {
    /// Encode this response, write it back, and read the next request.
    Reply(Response),
    /// The connection ended normally; stop cleanly.
    Finish,
    /// Stop and close the connection, without a response frame.
    Abort(ConnError),
}

/// Dispatches one command against the store. A GET reads the value stored
/// under its key and never mutates; a SET inserts or overwrites its pair,
/// touches only the shard the key routes to, and is always acknowledged.
pub fn dispatch(store: &mut Store, cmd: Command) -> (r: Response)
    requires
        old(store).wf(),
    ensures
        final(store).wf(),
        final(store).num_shards() == old(store).num_shards(),
        (cmd matches Command::Get { key } ==> *final(store) == *old(store) && (old(
            store,
        )@.contains_key(key@) ==> (r matches Response::Value(v) && v@ == old(store)@[key@])) && (
        !old(store)@.contains_key(key@) ==> r matches Response::Null)),
        (cmd matches Command::SetValue { key, value } ==> final(store)@ == old(store)@.insert(
            key@,
            value@,
        ) && (r matches Response::Acknowledged) && (forall|j: int|
            0 <= j < old(store).num_shards() && j != route_spec(key@, old(store).num_shards())
                ==> final(store).shard_map(j) == old(store).shard_map(j))),
{
    match cmd {
        Command::Get { key } => match store.get(&key) {
            Some(v) => Response::Value(v),
            None => Response::Null,
        },
        Command::SetValue { key, value } => {
            store.set(key, value);
            Response::Acknowledged
        },
    }
}

/// Dispatches one command against a single shard, for a server that holds
/// each shard behind its own lock: the caller routes the command's key,
/// locks that shard alone, and applies the command to it.
pub fn apply(shard: &mut Shard, cmd: Command) -> (r: Response)
    requires
        old(shard).wf(),
    ensures
        final(shard).wf(),
        (cmd matches Command::Get { key } ==> *final(shard) == *old(shard) && (old(
            shard,
        )@.contains_key(key@) ==> (r matches Response::Value(v) && v@ == old(shard)@[key@])) && (
        !old(shard)@.contains_key(key@) ==> r matches Response::Null)),
        (cmd matches Command::SetValue { key, value } ==> final(shard)@ == old(shard)@.insert(
            key@,
            value@,
        ) && (r matches Response::Acknowledged)),
{
    match cmd {
        Command::Get { key } => match shard.get(&key) {
            Some(v) => Response::Value(v),
            None => Response::Null,
        },
        Command::SetValue { key, value } => {
            shard.set(key, value);
            Response::Acknowledged
        },
    }
}

/// One turn of the connection worker's loop: what to do with the next
/// event the codec handed back. A clean end of stream finishes the worker;
/// undecodable bytes and malformed requests abort it; a supported command
/// is dispatched and its response written back; an unsupported command
/// aborts the connection, carrying the command's name.
pub fn handle_event(store: &mut Store, ev: Event) -> (r: Outcome)
    requires
        old(store).wf(),
    ensures
        final(store).wf(),
        final(store).num_shards() == old(store).num_shards(),
        (ev matches Event::Closed ==> *final(store) == *old(store) && (r matches Outcome::Finish)),
        (ev matches Event::Malformed ==> *final(store) == *old(store) && (r matches Outcome::Abort(
            ConnError::Decode,
        ))),
        (ev matches Event::Request(f) ==> match parse_model(f) {
            RequestModel::GetRequest(k) => *final(store) == *old(store) && (old(
                store,
            )@.contains_key(k) ==> (r matches Outcome::Reply(Response::Value(v)) && v@ == old(
                store,
            )@[k])) && (!old(store)@.contains_key(k) ==> r matches Outcome::Reply(Response::Null)),
            RequestModel::SetRequest(k, v) => final(store)@ == old(store)@.insert(k, v) && (
            r matches Outcome::Reply(Response::Acknowledged)),
            RequestModel::UnsupportedRequest(n) => *final(store) == *old(store) && (r matches
                Outcome::Abort(ConnError::Unsupported { name }) && name@ == n),
            RequestModel::MalformedRequest => *final(store) == *old(store) && (r matches
                Outcome::Abort(ConnError::Decode)),
        }),
{
    match ev {
        Event::Closed => Outcome::Finish,
        Event::Malformed => Outcome::Abort(ConnError::Decode),
        Event::Request(f) => match parse(f) {
            Ok(cmd) => Outcome::Reply(dispatch(store, cmd)),
            Err(ParseError::Unsupported { name }) => Outcome::Abort(
                ConnError::Unsupported { name },
            ),
            Err(ParseError::Malformed) => Outcome::Abort(ConnError::Decode),
        },
    }
}

} // verus!
