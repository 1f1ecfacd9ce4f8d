//! The message vocabulary spoken between a client and the daemon, and its
//! encoding on the wire.
//!
//! A message is the tag of its variant followed by the variant's fields in
//! order. An optional text is one byte, 0 for absent and 1 for present,
//! followed by the text if it is present. Bytes that follow a complete message
//! are not looked at.

use crate::wire::{
    parse_tag, parse_text, put_tag, put_text, tag_bytes, tag_round_trip, take_tag, take_text,
    text_bytes, text_fits, text_round_trip, ParsedText, TAG_LEN,
};
use vstd::prelude::*;
use vstd::slice::slice_subrange;

verus! {

/// A request sent by a client, one per connection.
#[derive(Debug, Clone, PartialEq, Eq)]
pub enum Request {
    /// Present the master password to unlock the store.
    Unlock { password: String },
    /// Store `value` under `key`.
    Put { key: String, value: String },
    /// Fetch the value stored under `key`.
    Get { key: String },
    /// Lock the store again.
    Lock,
}

/// The daemon's answer to a request.
#[derive(Debug, Clone, PartialEq, Eq)]
pub enum Response {
    /// The request succeeded, possibly carrying a value.
    Success(Option<String>),
    /// The request was refused, with the reason.
    Error(String),
}

/// Mathematical model of a [`Request`].
pub enum RequestModel {
    Unlock { password: Seq<char> },
    Put { key: Seq<char>, value: Seq<char> },
    Get { key: Seq<char> },
    Lock,
}

/// Mathematical model of a [`Response`].
pub enum ResponseModel {
    Success(Option<Seq<char>>),
    Error(Seq<char>),
}

impl View for Request {
    type V = RequestModel;

    open spec fn view(&self) -> RequestModel {
        match *self {
            Request::Unlock { password } => RequestModel::Unlock { password: password@ },
            Request::Put { key, value } => RequestModel::Put { key: key@, value: value@ },
            Request::Get { key } => RequestModel::Get { key: key@ },
            Request::Lock => RequestModel::Lock,
        }
    }
}

impl View for Response {
    type V = ResponseModel;

    open spec fn view(&self) -> ResponseModel {
        match *self {
            Response::Success(Some(value)) => ResponseModel::Success(Some(value@)),
            Response::Success(None) => ResponseModel::Success(None),
            Response::Error(message) => ResponseModel::Error(message@),
        }
    }
}

/// Why bytes were not accepted as a message.
#[derive(Debug, Clone, Copy, PartialEq, Eq)]
pub enum ProtocolError {
    /// The bytes do not start with a complete, well-formed message.
    MalformedMessage,
}

/// Tag of [`Request::Unlock`].
pub const TAG_UNLOCK: u32 = 0;

/// Tag of [`Request::Put`].
pub const TAG_PUT: u32 = 1;

/// Tag of [`Request::Get`].
pub const TAG_GET: u32 = 2;

/// Tag of [`Request::Lock`].
pub const TAG_LOCK: u32 = 3;

/// Tag of [`Response::Success`].
pub const TAG_SUCCESS: u32 = 0;

/// Tag of [`Response::Error`].
pub const TAG_ERROR: u32 = 1;

/// The byte that stands for an absent optional text.
pub const ABSENT: u8 = 0;

/// The byte that precedes a present optional text.
pub const PRESENT: u8 = 1;

/// The bytes of an optional text.
pub open spec fn optional_text_bytes(text: Option<Seq<char>>) -> Seq<u8> {
    match text {
        None => seq![ABSENT],
        Some(text) => seq![PRESENT] + text_bytes(text),
    }
}

/// The optional text that `bytes` start with, if they start with one.
pub open spec fn parse_optional_text(bytes: Seq<u8>) -> Option<Option<Seq<char>>> {
    if bytes.len() == 0 {
        None
    } else if bytes[0] == ABSENT {
        Some(None)
    } else if bytes[0] == PRESENT {
        match parse_text(bytes.subrange(1, bytes.len() as int)) {
            Some(parsed) => Some(Some(parsed.text)),
            None => None,
        }
    } else {
        None
    }
}

impl RequestModel {
    /// Whether the length of every text in the request can be written down.
    pub open spec fn well_formed(self) -> bool {
        match self {
            RequestModel::Unlock { password } => text_fits(password),
            RequestModel::Put { key, value } => text_fits(key) && text_fits(value),
            RequestModel::Get { key } => text_fits(key),
            RequestModel::Lock => true,
        }
    }

    /// The bytes of the request on the wire.
    pub open spec fn wire(self) -> Seq<u8> {
        match self {
            RequestModel::Unlock { password } => tag_bytes(TAG_UNLOCK) + text_bytes(password),
            RequestModel::Put { key, value } => tag_bytes(TAG_PUT) + text_bytes(key) + text_bytes(
                value,
            ),
            RequestModel::Get { key } => tag_bytes(TAG_GET) + text_bytes(key),
            RequestModel::Lock => tag_bytes(TAG_LOCK),
        }
    }

    /// The request that `bytes` start with, if they start with one.
    pub open spec fn parse(bytes: Seq<u8>) -> Option<RequestModel> {
        match parse_tag(bytes) {
            None => None,
            Some(tag) => {
                let body = bytes.subrange(4, bytes.len() as int);
                if tag == TAG_UNLOCK {
                    match parse_text(body) {
                        Some(password) => Some(RequestModel::Unlock { password: password.text }),
                        None => None,
                    }
                } else if tag == TAG_PUT {
                    match parse_text(body) {
                        Some(key) => match parse_text(body.subrange(key.used, body.len() as int)) {
                            Some(value) => Some(
                                RequestModel::Put { key: key.text, value: value.text },
                            ),
                            None => None,
                        },
                        None => None,
                    }
                } else if tag == TAG_GET {
                    match parse_text(body) {
                        Some(key) => Some(RequestModel::Get { key: key.text }),
                        None => None,
                    }
                } else if tag == TAG_LOCK {
                    Some(RequestModel::Lock)
                } else {
                    None
                }
            },
        }
    }
}

impl ResponseModel {
    /// Whether the length of every text in the response can be written down.
    pub open spec fn well_formed(self) -> bool {
        match self {
            ResponseModel::Success(Some(value)) => text_fits(value),
            ResponseModel::Success(None) => true,
            ResponseModel::Error(message) => text_fits(message),
        }
    }

    /// The bytes of the response on the wire.
    pub open spec fn wire(self) -> Seq<u8> {
        match self {
            ResponseModel::Success(value) => tag_bytes(TAG_SUCCESS) + optional_text_bytes(value),
            ResponseModel::Error(message) => tag_bytes(TAG_ERROR) + text_bytes(message),
        }
    }

    /// The response that `bytes` start with, if they start with one.
    pub open spec fn parse(bytes: Seq<u8>) -> Option<ResponseModel> {
        match parse_tag(bytes) {
            None => None,
            Some(tag) => {
                let body = bytes.subrange(4, bytes.len() as int);
                if tag == TAG_SUCCESS {
                    match parse_optional_text(body) {
                        Some(value) => Some(ResponseModel::Success(value)),
                        None => None,
                    }
                } else if tag == TAG_ERROR {
                    match parse_text(body) {
                        Some(message) => Some(ResponseModel::Error(message.text)),
                        None => None,
                    }
                } else {
                    None
                }
            },
        }
    }
}

/// Decoding what a request encodes to gives the request back, also when
/// other bytes follow it.
pub proof fn request_round_trip(request: RequestModel, rest: Seq<u8>)
    requires
        request.well_formed(),
    ensures
        RequestModel::parse(request.wire() + rest) == Some(request),
{
    match request {
        RequestModel::Unlock { password } => {
            let body = text_bytes(password) + rest;
            assert(request.wire() + rest =~= tag_bytes(TAG_UNLOCK) + body);
            tag_round_trip(TAG_UNLOCK, body);
            text_round_trip(password, rest);
        },
        RequestModel::Put { key, value } => {
            let tail = text_bytes(value) + rest;
            let body = text_bytes(key) + tail;
            assert(request.wire() + rest =~= tag_bytes(TAG_PUT) + body);
            tag_round_trip(TAG_PUT, body);
            text_round_trip(key, tail);
            text_round_trip(value, rest);
        },
        RequestModel::Get { key } => {
            let body = text_bytes(key) + rest;
            assert(request.wire() + rest =~= tag_bytes(TAG_GET) + body);
            tag_round_trip(TAG_GET, body);
            text_round_trip(key, rest);
        },
        RequestModel::Lock => {
            tag_round_trip(TAG_LOCK, rest);
        },
    }
}

/// Decoding what a response encodes to gives the response back, also when
/// other bytes follow it.
pub proof fn response_round_trip(response: ResponseModel, rest: Seq<u8>)
    requires
        response.well_formed(),
    ensures
        ResponseModel::parse(response.wire() + rest) == Some(response),
{
    match response {
        ResponseModel::Success(None) => {
            let body = seq![ABSENT] + rest;
            assert(response.wire() + rest =~= tag_bytes(TAG_SUCCESS) + body);
            tag_round_trip(TAG_SUCCESS, body);
        },
        ResponseModel::Success(Some(value)) => {
            let tail = text_bytes(value) + rest;
            let body = seq![PRESENT] + tail;
            assert(response.wire() + rest =~= tag_bytes(TAG_SUCCESS) + body);
            tag_round_trip(TAG_SUCCESS, body);
            assert(body.subrange(1, body.len() as int) =~= tail);
            text_round_trip(value, rest);
        },
        ResponseModel::Error(message) => {
            let body = text_bytes(message) + rest;
            assert(response.wire() + rest =~= tag_bytes(TAG_ERROR) + body);
            tag_round_trip(TAG_ERROR, body);
            text_round_trip(message, rest);
        },
    }
}

impl Request {
    /// Encodes the request. Decoding the bytes gives the request back.
    pub fn encode(&self) -> (bytes: Vec<u8>)
        ensures
            bytes@ == self@.wire(),
            self@.well_formed(),
            RequestModel::parse(bytes@) == Some(self@),
    {
        let mut out: Vec<u8> = Vec::new();
        match self {
            Request::Unlock { password } => {
                put_tag(&mut out, TAG_UNLOCK);
                put_text(&mut out, password.as_str());
            },
            Request::Put { key, value } => {
                put_tag(&mut out, TAG_PUT);
                put_text(&mut out, key.as_str());
                put_text(&mut out, value.as_str());
            },
            Request::Get { key } => {
                put_tag(&mut out, TAG_GET);
                put_text(&mut out, key.as_str());
            },
            Request::Lock => {
                put_tag(&mut out, TAG_LOCK);
            },
        }
        proof {
            assert(out@ =~= self@.wire());
            assert(self@.wire() + Seq::<u8>::empty() =~= self@.wire());
            request_round_trip(self@, Seq::empty());
        }
        out
    }

    /// Decodes the request that `bytes` start with. Bytes that do not start
    /// with a complete request are malformed.
    pub fn decode(bytes: &[u8]) -> (decoded: Result<Request, ProtocolError>)
        ensures
            match decoded {
                Ok(request) => RequestModel::parse(bytes@) == Some(request@),
                Err(error) => RequestModel::parse(bytes@) is None && error
                    == ProtocolError::MalformedMessage,
            },
    {
        let tag = match take_tag(bytes) {
            Some(tag) => tag,
            None => {
                return Err(ProtocolError::MalformedMessage);
            },
        };
        let body = slice_subrange(bytes, TAG_LEN, bytes.len());
        if tag == TAG_UNLOCK {
            match take_text(body) {
                Some((password, _)) => Ok(Request::Unlock { password }),
                None => Err(ProtocolError::MalformedMessage),
            }
        } else if tag == TAG_PUT {
            match take_text(body) {
                Some((key, used)) => {
                    match take_text(slice_subrange(body, used, body.len())) {
                        Some((value, _)) => Ok(Request::Put { key, value }),
                        None => Err(ProtocolError::MalformedMessage),
                    }
                },
                None => Err(ProtocolError::MalformedMessage),
            }
        } else if tag == TAG_GET {
            match take_text(body) {
                Some((key, _)) => Ok(Request::Get { key }),
                None => Err(ProtocolError::MalformedMessage),
            }
        } else if tag == TAG_LOCK {
            Ok(Request::Lock)
        } else {
            Err(ProtocolError::MalformedMessage)
        }
    }
}

impl Response {
    /// Encodes the response. Decoding the bytes gives the response back.
    pub fn encode(&self) -> (bytes: Vec<u8>)
        ensures
            bytes@ == self@.wire(),
            self@.well_formed(),
            ResponseModel::parse(bytes@) == Some(self@),
    {
        let mut out: Vec<u8> = Vec::new();
        match self {
            Response::Success(None) => {
                put_tag(&mut out, TAG_SUCCESS);
                out.push(ABSENT);
            },
            Response::Success(Some(value)) => {
                put_tag(&mut out, TAG_SUCCESS);
                out.push(PRESENT);
                put_text(&mut out, value.as_str());
            },
            Response::Error(message) => {
                put_tag(&mut out, TAG_ERROR);
                put_text(&mut out, message.as_str());
            },
        }
        proof {
            assert(out@ =~= self@.wire());
            assert(self@.wire() + Seq::<u8>::empty() =~= self@.wire());
            response_round_trip(self@, Seq::empty());
        }
        out
    }

    /// Decodes the response that `bytes` start with. Bytes that do not start
    /// with a complete response are malformed.
    pub fn decode(bytes: &[u8]) -> (decoded: Result<Response, ProtocolError>)
        ensures
            match decoded {
                Ok(response) => ResponseModel::parse(bytes@) == Some(response@),
                Err(error) => ResponseModel::parse(bytes@) is None && error
                    == ProtocolError::MalformedMessage,
            },
    {
        let tag = match take_tag(bytes) {
            Some(tag) => tag,
            None => {
                return Err(ProtocolError::MalformedMessage);
            },
        };
        let body = slice_subrange(bytes, TAG_LEN, bytes.len());
        if tag == TAG_SUCCESS {
            if body.len() == 0 {
                Err(ProtocolError::MalformedMessage)
            } else if body[0] == ABSENT {
                Ok(Response::Success(None))
            } else if body[0] == PRESENT {
                match take_text(slice_subrange(body, 1, body.len())) {
                    Some((value, _)) => Ok(Response::Success(Some(value))),
                    None => Err(ProtocolError::MalformedMessage),
                }
            } else {
                Err(ProtocolError::MalformedMessage)
            }
        } else if tag == TAG_ERROR {
            match take_text(body) {
                Some((message, _)) => Ok(Response::Error(message)),
                None => Err(ProtocolError::MalformedMessage),
            }
        } else {
            Err(ProtocolError::MalformedMessage)
        }
    }
}

} // verus!
