//! The decisions of the editor server's connection handling: what request a
//! client's bytes hold, what its connection waits for next, and when it is
//! finished.

use serde_json::Value;
use vstd::prelude::*;

use super::api::{path_views, Response};

verus! {

/// The bytes hold one JSON value, as `serde_json::from_slice` reads it.
pub uninterp spec fn json_parses(text: Seq<u8>) -> bool;

/// The string that the JSON value held by the bytes has at the JSON pointer
/// `pointer` (RFC 6901), if there is a string there.
pub uninterp spec fn json_str_at(text: Seq<u8>, pointer: Seq<char>) -> Option<Seq<char>>;

/// The JSON value held by the bytes has some value at the JSON pointer `pointer`.
pub uninterp spec fn json_has(text: Seq<u8>, pointer: Seq<char>) -> bool;

/// `serde_json::from_slice` into a `Value`, then `Value::pointer` and
/// `Value::as_str`: `None` when the bytes are not one JSON value (an error of
/// `from_slice`), else the string at the pointer, if a string is there. What
/// the parse gives is named (`json_parses`, `json_str_at`), not described.
#[verifier::external_body]
fn json_string_at(bytes: &[u8], pointer: &str) -> (r: Option<Option<String>>)
    ensures
        r is Some <==> json_parses(bytes@),
        r matches Some(s) ==> path_views(s) == json_str_at(bytes@, pointer@),
{
    match serde_json::from_slice::<Value>(bytes) {
        Err(_) => None,
        Ok(v) => match v.pointer(pointer) {
            Some(x) => match x.as_str() {
                Some(t) => Some(Some(t.to_string())),
                None => Some(None),
            },
            None => Some(None),
        },
    }
}

/// `serde_json::from_slice` into a `Value`, then `Value::pointer`: `None` when
/// the bytes are not one JSON value, else whether some value is at the pointer.
#[verifier::external_body]
fn json_value_at(bytes: &[u8], pointer: &str) -> (r: Option<bool>)
    ensures
        r is Some <==> json_parses(bytes@),
        r matches Some(b) ==> b == json_has(bytes@, pointer@),
{
    match serde_json::from_slice::<Value>(bytes) {
        Err(_) => None,
        Ok(v) => Some(v.pointer(pointer).is_some()),
    }
}

/// The request that bytes holding a JSON value make: an object with a string
/// `command` and some `args` asks for that command, with the string `path`
/// of the arguments when there is one.
pub open spec fn request_of(text: Seq<u8>) -> Option<(Seq<char>, Option<Seq<char>>)> {
    match json_str_at(text, "/command"@) {
        Some(c) => if json_has(text, "/args"@) {
            Some((c, json_str_at(text, "/args/path"@)))
        } else {
            None
        },
        None => None,
    }
}

/// What a connection waits for: to be read from, to be written to, or both.
#[derive(Copy, Clone, Debug, PartialEq, Eq, Structural)]
pub struct Interest {
    pub readable: bool,
    pub writable: bool,
}

/// What reading a connection gave when no bytes came.
pub enum ReadOutcome {
    /// Nothing was there yet.
    WouldBlock,
    /// The peer closed the connection.
    Closed,
}

/// What writing the answer to a connection gave.
pub enum WriteOutcome {
    /// The connection was not ready.
    WouldBlock,
    /// This many bytes were written.
    Wrote(usize),
}

/// A client's connection: what it waits for, the answer it is owed, and
/// whether it is closed.
pub struct IotaClient {
    pub interest: Interest,
    pub result: Option<Response>,
    pub closed: bool,
}

impl IotaClient {
    /// A new connection waits to be read from.
    pub fn new() -> (r: IotaClient)
        ensures
            r.interest == (Interest { readable: true, writable: false }),
            r.result is None,
            !r.closed,
    {
        IotaClient { interest: Interest { readable: true, writable: false }, result: None, closed: false }
    }

    /// Takes a read that gave no bytes: a closed peer closes the connection
    /// and makes it wait to be written to; nothing there yet changes nothing.
    pub fn read(&mut self, outcome: ReadOutcome)
        ensures
            final(self).result == old(self).result,
            match outcome {
                ReadOutcome::WouldBlock => *final(self) == *old(self),
                ReadOutcome::Closed => final(self).closed && final(self).interest == (Interest {
                    readable: false,
                    writable: true,
                }),
            },
    {
        match outcome {
            ReadOutcome::WouldBlock => {},
            ReadOutcome::Closed => {
                self.closed = true;
                self.interest.readable = false;
                self.interest.writable = true;
            },
        }
    }

    /// Takes the bytes a read gave: bytes that are not one JSON value are
    /// dropped; a JSON value makes the connection wait to be written to, and
    /// gives the command it asks for, with the `path` of its arguments, when it
    /// is a request.
    pub fn read_bytes(&mut self, bytes: &[u8]) -> (r: Option<(String, Option<String>)>)
        ensures
            final(self).result == old(self).result,
            final(self).closed == old(self).closed,
            !json_parses(bytes@) ==> r is None && final(self).interest == old(self).interest,
            json_parses(bytes@) ==> final(self).interest == (Interest { readable: false, writable: true })
                && match request_of(bytes@) {
                Some((c, p)) => r matches Some((cmd, path)) && cmd@ == c && path_views(path) == p,
                None => r is None,
            },
    {
        let command = match json_string_at(bytes, "/command") {
            None => {
                return None;
            },
            Some(c) => c,
        };
        self.interest.readable = false;
        self.interest.writable = true;
        let has_args = match json_value_at(bytes, "/args") {
            Some(b) => b,
            None => false,
        };
        match command {
            Some(c) => {
                if has_args {
                    let path = match json_string_at(bytes, "/args/path") {
                        Some(p) => p,
                        None => None,
                    };
                    Some((c, path))
                } else {
                    None
                }
            },
            None => None,
        }
    }

    /// Takes what writing the answer gave: once some bytes went out, the
    /// connection waits to be read from again.
    pub fn write(&mut self, outcome: WriteOutcome)
        requires
            old(self).result is Some,
        ensures
            final(self).closed == old(self).closed,
            final(self).result == old(self).result,
            final(self).interest == (match outcome {
                WriteOutcome::Wrote(n) => if n > 0 {
                    Interest { readable: true, writable: false }
                } else {
                    old(self).interest
                },
                WriteOutcome::WouldBlock => old(self).interest,
            }),
    {
        match outcome {
            WriteOutcome::Wrote(n) => {
                if n > 0 {
                    self.interest.writable = false;
                    self.interest.readable = true;
                }
            },
            WriteOutcome::WouldBlock => {},
        }
    }

    /// Whether the connection is to be dropped rather than waited on again.
    pub fn finished(&self) -> (r: bool)
        ensures
            r == self.closed,
    {
        self.closed
    }
}

} // verus!
