//! The command model: request frames, the closed set of supported commands,
//! and the responses dispatch can produce.

use vstd::prelude::*;
use vstd::string::StringExecFns;
use vstd::utf8::decode_utf8;
use vstd::utf8::encode_utf8;
use vstd::utf8::valid_utf8;

verus! {

/// One decoded message on a connection, as the codec hands it over.
#[derive(Debug, PartialEq, Eq)]
pub enum Frame {
    Simple(String),
    Error(String),
    Integer(u64),
    Bulk(Vec<u8>),
    Null,
    Array(Vec<Frame>),
}

/// A parsed client intent, ready for dispatch against the store.
#[derive(Debug, PartialEq, Eq)]
pub enum Command {
    /// Read the value stored under the key.
    Get { key: String },
    /// Store the value under the key, overwriting any earlier one.
    SetValue { key: String, value: Vec<u8> },
}

/// Why a request frame yielded no command.
#[derive(Debug, PartialEq, Eq)]
pub enum ParseError {
    /// A well-shaped command the store does not implement, by name.
    Unsupported { name: String },
    /// A frame that is not a well-shaped command at all.
    Malformed,
}

/// What dispatch answers a command with.
#[derive(Debug, PartialEq, Eq)]
pub enum Response {
    /// The fixed acknowledgement of a completed SET.
    Acknowledged,
    /// The bytes stored under the key a GET asked for.
    Value(Vec<u8>),
    /// The explicit absent indicator: the key a GET asked for holds nothing.
    Null,
}

impl Response {
    /// The frame a response is written back as: an acknowledgement as the
    /// simple string `OK`, a found value as a bulk frame, absence as the
    /// null frame.
    pub fn to_frame(self) -> (r: Frame)
        ensures
            (self matches Response::Acknowledged ==> (r matches Frame::Simple(s) && s@ == "OK"@)),
            (self matches Response::Value(v) ==> (r matches Frame::Bulk(b) && b@ == v@)),
            (self matches Response::Null ==> r matches Frame::Null),
    {
        match self {
            Response::Acknowledged => Frame::Simple(String::from_str("OK")),
            Response::Value(v) => Frame::Bulk(v),
            Response::Null => Frame::Null,
        }
    }
}

/// What a request frame means: one of the two supported commands, an
/// unsupported command by name, or no well-shaped command at all. The
/// ghost-level mirror of `parse`'s result.
pub enum RequestModel {
    GetRequest(Seq<char>),
    SetRequest(Seq<char>, Seq<u8>),
    UnsupportedRequest(Seq<char>),
    MalformedRequest,
}

/// The text a frame carries: a simple frame's string, or a bulk frame's
/// bytes when they are valid UTF-8. Other frames carry no text.
pub open spec fn frame_text(f: Frame) -> Option<Seq<char>> {
    match f {
        Frame::Simple(s) => Some(s@),
        Frame::Bulk(b) => if valid_utf8(b@) {
            Some(decode_utf8(b@))
        } else {
            None
        },
        _ => None,
    }
}

/// The bytes a frame carries: a bulk frame's bytes, or the UTF-8 encoding
/// of a simple frame's string. Other frames carry no byte payload.
pub open spec fn frame_payload(f: Frame) -> Option<Seq<u8>> {
    match f {
        Frame::Simple(s) => Some(encode_utf8(s@)),
        Frame::Bulk(b) => Some(b@),
        _ => None,
    }
}

/// An upper-case ASCII letter folded to lower case; every other byte is
/// left as it is.
pub open spec fn ascii_lower(b: u8) -> u8 {
    if 65 <= b && b <= 90 {
        (b + 32) as u8
    } else {
        b
    }
}

/// Whether a command name's UTF-8 bytes spell the given three bytes, ASCII
/// case aside. Both supported command names are three bytes long.
pub open spec fn name_is(name: Seq<char>, b0: u8, b1: u8, b2: u8) -> bool {
    let bs = encode_utf8(name);
    bs.len() == 3 && ascii_lower(bs[0]) == b0 && ascii_lower(bs[1]) == b1 && ascii_lower(bs[2])
        == b2
}

/// The grammar of requests. A well-shaped command is a non-empty array
/// frame whose first element carries text; that text names the command,
/// ASCII case aside. GET takes exactly one further element carrying the key
/// as text; SET takes exactly two, the key as text and the value as bytes.
/// A well-shaped command under any other name is unsupported; everything
/// else is malformed.
pub open spec fn parse_model(f: Frame) -> RequestModel {
    match f {
        Frame::Array(parts) => {
            if parts@.len() == 0 {
                RequestModel::MalformedRequest
            } else {
                match frame_text(parts@[0]) {
                    Some(name) => if name_is(name, 103, 101, 116) {
                        if parts@.len() == 2 {
                            match frame_text(parts@[1]) {
                                Some(k) => RequestModel::GetRequest(k),
                                None => RequestModel::MalformedRequest,
                            }
                        } else {
                            RequestModel::MalformedRequest
                        }
                    } else if name_is(name, 115, 101, 116) {
                        if parts@.len() == 3 {
                            match (frame_text(parts@[1]), frame_payload(parts@[2])) {
                                (Some(k), Some(v)) => RequestModel::SetRequest(k, v),
                                _ => RequestModel::MalformedRequest,
                            }
                        } else {
                            RequestModel::MalformedRequest
                        }
                    } else {
                        RequestModel::UnsupportedRequest(name)
                    },
                    None => RequestModel::MalformedRequest,
                }
            }
        },
        _ => RequestModel::MalformedRequest,
    }
}

/// Relies on `String::from_utf8`: it returns `Ok` exactly when the bytes
/// are valid UTF-8, and then the returned string's characters are the
/// decoding of those bytes.
#[verifier::external_body]
fn string_from_utf8(bytes: Vec<u8>) -> (r: Option<String>)
    ensures
        r matches Some(s) ==> valid_utf8(bytes@) && s@ == decode_utf8(bytes@),
        r is None ==> !valid_utf8(bytes@),
{
    match String::from_utf8(bytes) {
        Ok(s) => Some(s),
        Err(_) => None,
    }
}

/// The text the frame carries, as `frame_text` gives it.
fn extract_text(f: &Frame) -> (r: Option<String>)
    ensures
        match r {
            Some(s) => frame_text(*f) == Some(s@),
            None => frame_text(*f) is None,
        },
{
    match f {
        Frame::Simple(s) => Some(s.clone()),
        Frame::Bulk(b) => string_from_utf8(b.clone()),
        _ => None,
    }
}

/// The bytes the frame carries, as `frame_payload` gives them.
fn extract_payload(f: &Frame) -> (r: Option<Vec<u8>>)
    ensures
        match r {
            Some(v) => frame_payload(*f) == Some(v@),
            None => frame_payload(*f) is None,
        },
{
    match f {
        Frame::Simple(s) => Some(vstd::slice::slice_to_vec(s.as_str().as_bytes())),
        Frame::Bulk(b) => Some(vstd::slice::slice_to_vec(b.as_slice())),
        _ => None,
    }
}

/// `ascii_lower`, computed.
fn ascii_lower_byte(b: u8) -> (r: u8)
    ensures
        r == ascii_lower(b),
{
    if b >= 65 && b <= 90 {
        b + 32
    } else {
        b
    }
}

/// Whether the name spells the given three bytes, ASCII case aside.
fn name_matches(name: &String, b0: u8, b1: u8, b2: u8) -> (r: bool)
    ensures
        r == name_is(name@, b0, b1, b2),
{
    let bs = name.as_str().as_bytes();
    bs.len() == 3 && ascii_lower_byte(bs[0]) == b0 && ascii_lower_byte(bs[1]) == b1
        && ascii_lower_byte(bs[2]) == b2
}

/// Recognizes the two supported commands in a request frame. Any other
/// well-shaped command is rejected by name as unsupported, never silently
/// ignored; a frame that is no well-shaped command at all is rejected as
/// malformed. Exactly one of the four outcomes of `parse_model` is taken.
pub fn parse(frame: Frame) -> (r: Result<Command, ParseError>)
    ensures
        match parse_model(frame) {
            RequestModel::GetRequest(k) => (r matches Ok(Command::Get { key }) && key@ == k),
            RequestModel::SetRequest(k, v) => (r matches Ok(Command::SetValue { key, value }) && key@
                == k && value@ == v),
            RequestModel::UnsupportedRequest(n) => (r matches Err(ParseError::Unsupported { name })
                && name@ == n),
            RequestModel::MalformedRequest => r matches Err(ParseError::Malformed),
        },
{
    let parts: Vec<Frame> = match frame {
        Frame::Array(parts) => parts,
        _ => {
            return Err(ParseError::Malformed);
        },
    };
    if parts.len() == 0 {
        return Err(ParseError::Malformed);
    }
    let name = match extract_text(&parts[0]) {
        Some(name) => name,
        None => {
            return Err(ParseError::Malformed);
        },
    };
    if name_matches(&name, 103, 101, 116) {
        if parts.len() != 2 {
            return Err(ParseError::Malformed);
        }
        match extract_text(&parts[1]) {
            Some(key) => Ok(Command::Get { key }),
            None => Err(ParseError::Malformed),
        }
    } else if name_matches(&name, 115, 101, 116) {
        if parts.len() != 3 {
            return Err(ParseError::Malformed);
        }
        let key = match extract_text(&parts[1]) {
            Some(key) => key,
            None => {
                return Err(ParseError::Malformed);
            },
        };
        match extract_payload(&parts[2]) {
            Some(value) => Ok(Command::SetValue { key, value }),
            None => Err(ParseError::Malformed),
        }
    } else {
        Err(ParseError::Unsupported { name })
    }
}

} // verus!
