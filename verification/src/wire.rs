//! The messages of the RPC protocol and their JSON form.
//!
//! A message is a JSON object whose member `type` names its kind. A payload
//! (`data`, `result`, `error`) is any JSON value; here it is held as its
//! JSON text.

use crate::json::{
    as_str, as_u64, json_document, json_member, json_quoted, json_str, json_text, json_u64,
    member, parse, quote, render,
};
use crate::text::{decimal, str_equal, to_decimal};
use crate::Error;
use serde_json::Value;
use vstd::prelude::*;

verus! {

/// One message of the RPC protocol.
#[derive(Debug, Clone)]
pub enum WireMessage {
    /// A call of `method` with the payload `data`, to be answered under
    /// `id`.
    Request { id: u32, method: String, data: String },
    /// The result of the call that was made under `id`.
    Response { id: u32, result: String },
    /// The failure of the call that was made under `id`.
    Error { id: u32, error: String },
    /// A call of `method` that expects no answer.
    Notification { method: String, data: String },
}

/// The mathematical value of a [`WireMessage`].
pub enum WireView {
    Request { id: u32, method: Seq<char>, data: Seq<char> },
    Response { id: u32, result: Seq<char> },
    Error { id: u32, error: Seq<char> },
    Notification { method: Seq<char>, data: Seq<char> },
}

impl View for WireMessage {
    type V = WireView;

    open spec fn view(&self) -> WireView {
        match self {
            WireMessage::Request { id, method, data } => WireView::Request {
                id: *id,
                method: method@,
                data: data@,
            },
            WireMessage::Response { id, result } => WireView::Response { id: *id, result: result@ },
            WireMessage::Error { id, error } => WireView::Error { id: *id, error: error@ },
            WireMessage::Notification { method, data } => WireView::Notification {
                method: method@,
                data: data@,
            },
        }
    }
}

/// Whether `payload` is the text of a JSON value.
pub open spec fn is_json(payload: Seq<char>) -> bool {
    json_document(payload) is Some
}

/// The JSON text of a message: `type` first, then the other members in the
/// order `id`, `method`, payload. `None` where a payload is not JSON or the
/// method's name cannot be written as a JSON string.
pub open spec fn wire_text(message: WireView) -> Option<Seq<char>> {
    match message {
        WireView::Request { id, method, data } => if is_json(data) && json_quoted(method) is Some {
            Some(
                "{\"type\":\"request\",\"id\":"@ + decimal(id as nat) + ",\"method\":"@
                    + json_quoted(method)->0 + ",\"data\":"@ + data + "}"@,
            )
        } else {
            None
        },
        WireView::Response { id, result } => if is_json(result) {
            Some(
                "{\"type\":\"response\",\"id\":"@ + decimal(id as nat) + ",\"result\":"@ + result
                    + "}"@,
            )
        } else {
            None
        },
        WireView::Error { id, error } => if is_json(error) {
            Some(
                "{\"type\":\"error\",\"id\":"@ + decimal(id as nat) + ",\"error\":"@ + error
                    + "}"@,
            )
        } else {
            None
        },
        WireView::Notification { method, data } => if is_json(data) && json_quoted(method)
            is Some {
            Some(
                "{\"type\":\"notification\",\"method\":"@ + json_quoted(method)->0 + ",\"data\":"@
                    + data + "}"@,
            )
        } else {
            None
        },
    }
}

/// The member `key` of `doc` as a string.
pub open spec fn string_member(doc: Value, key: Seq<char>) -> Option<Seq<char>> {
    match json_member(doc, key) {
        Some(v) => json_str(v),
        None => None,
    }
}

/// The member `id` of `doc` as a request id: an integer from 0 to 2^32 - 1.
pub open spec fn id_member(doc: Value) -> Option<u32> {
    match json_member(doc, "id"@) {
        Some(v) => match json_u64(v) {
            Some(n) => if n <= u32::MAX {
                Some(n as u32)
            } else {
                None
            },
            None => None,
        },
        None => None,
    }
}

/// The member `key` of `doc` as a payload: its JSON text.
pub open spec fn payload_member(doc: Value, key: Seq<char>) -> Option<Seq<char>> {
    match json_member(doc, key) {
        Some(v) => json_text(v),
        None => None,
    }
}

/// The message that the JSON value `doc` stands for: its `type` is one of
/// the four kinds and every member of that kind is there and of the right
/// sort. Other members are passed over.
pub open spec fn message_of(doc: Value) -> Option<WireView> {
    let kind = string_member(doc, "type"@);
    let id = id_member(doc);
    let method = string_member(doc, "method"@);
    if kind == Some("request"@) {
        let data = payload_member(doc, "data"@);
        if id is Some && method is Some && data is Some {
            Some(WireView::Request { id: id->0, method: method->0, data: data->0 })
        } else {
            None
        }
    } else if kind == Some("response"@) {
        let result = payload_member(doc, "result"@);
        if id is Some && result is Some {
            Some(WireView::Response { id: id->0, result: result->0 })
        } else {
            None
        }
    } else if kind == Some("error"@) {
        let error = payload_member(doc, "error"@);
        if id is Some && error is Some {
            Some(WireView::Error { id: id->0, error: error->0 })
        } else {
            None
        }
    } else if kind == Some("notification"@) {
        let data = payload_member(doc, "data"@);
        if method is Some && data is Some {
            Some(WireView::Notification { method: method->0, data: data->0 })
        } else {
            None
        }
    } else {
        None
    }
}

/// The message that `text` spells, if it spells one.
pub open spec fn wire_decode(text: Seq<char>) -> Option<WireView> {
    match json_document(text) {
        Some(doc) => message_of(doc),
        None => None,
    }
}

fn read_string(doc: &Value, key: &str) -> (res: Option<String>)
    ensures
        match res {
            Some(s) => string_member(*doc, key@) == Some(s@),
            None => string_member(*doc, key@) is None,
        },
{
    match member(doc, key) {
        Some(v) => match as_str(v) {
            Some(s) => Some(String::from_str(s)),
            None => None,
        },
        None => None,
    }
}

fn read_id(doc: &Value) -> (res: Option<u32>)
    ensures
        res == id_member(*doc),
{
    match member(doc, "id") {
        Some(v) => match as_u64(v) {
            Some(n) => if n <= 0xFFFF_FFFF {
                Some(n as u32)
            } else {
                None
            },
            None => None,
        },
        None => None,
    }
}

fn read_payload(doc: &Value, key: &str) -> (res: Option<String>)
    ensures
        match res {
            Some(s) => payload_member(*doc, key@) == Some(s@),
            None => payload_member(*doc, key@) is None,
        },
{
    match member(doc, key) {
        Some(v) => match render(v) {
            Ok(s) => Some(s),
            Err(_) => None,
        },
        None => None,
    }
}

fn not_a_message() -> (e: Error)
    ensures
        e is Json,
{
    Error::Json(String::from_str("not a message of the protocol"))
}

/// Checks that `payload` is the text of a JSON value.
pub fn check_json(payload: &str) -> (res: Result<(), Error>)
    ensures
        res is Ok <==> is_json(payload@),
        res is Err ==> res->Err_0 is Json,
{
    match parse(payload) {
        Ok(_) => Ok(()),
        Err(why) => Err(Error::Json(why)),
    }
}

impl WireMessage {
    /// Writes the message as JSON text.
    ///
    /// Fails with `Json` where a payload is not JSON or the method's name
    /// cannot be written.
    pub fn encode(&self) -> (res: Result<String, Error>)
        ensures
            match wire_text(self@) {
                Some(text) => res matches Ok(s) && s@ == text,
                None => res matches Err(Error::Json(_)),
            },
    {
        match self {
            WireMessage::Request { id, method, data } => {
                match check_json(data.as_str()) {
                    Ok(_) => {},
                    Err(e) => {
                        return Err(e);
                    },
                }
                let quoted = match quote(method.as_str()) {
                    Ok(q) => q,
                    Err(why) => {
                        return Err(Error::Json(why));
                    },
                };
                let mut s = String::from_str("{\"type\":\"request\",\"id\":");
                s.append(to_decimal(*id as u64).as_str());
                s.append(",\"method\":");
                s.append(quoted.as_str());
                s.append(",\"data\":");
                s.append(data.as_str());
                s.append("}");
                Ok(s)
            },
            WireMessage::Response { id, result } => {
                match check_json(result.as_str()) {
                    Ok(_) => {},
                    Err(e) => {
                        return Err(e);
                    },
                }
                let mut s = String::from_str("{\"type\":\"response\",\"id\":");
                s.append(to_decimal(*id as u64).as_str());
                s.append(",\"result\":");
                s.append(result.as_str());
                s.append("}");
                Ok(s)
            },
            WireMessage::Error { id, error } => {
                match check_json(error.as_str()) {
                    Ok(_) => {},
                    Err(e) => {
                        return Err(e);
                    },
                }
                let mut s = String::from_str("{\"type\":\"error\",\"id\":");
                s.append(to_decimal(*id as u64).as_str());
                s.append(",\"error\":");
                s.append(error.as_str());
                s.append("}");
                Ok(s)
            },
            WireMessage::Notification { method, data } => {
                match check_json(data.as_str()) {
                    Ok(_) => {},
                    Err(e) => {
                        return Err(e);
                    },
                }
                let quoted = match quote(method.as_str()) {
                    Ok(q) => q,
                    Err(why) => {
                        return Err(Error::Json(why));
                    },
                };
                let mut s = String::from_str("{\"type\":\"notification\",\"method\":");
                s.append(quoted.as_str());
                s.append(",\"data\":");
                s.append(data.as_str());
                s.append("}");
                Ok(s)
            },
        }
    }

    /// Reads a message from its JSON text.
    ///
    /// Fails with `Json` where the text is not JSON or the JSON is not a
    /// message.
    pub fn decode(text: &str) -> (res: Result<WireMessage, Error>)
        ensures
            match wire_decode(text@) {
                Some(message) => res matches Ok(m) && m@ == message,
                None => res matches Err(Error::Json(_)),
            },
    {
        let doc = match parse(text) {
            Ok(doc) => doc,
            Err(why) => {
                return Err(Error::Json(why));
            },
        };
        let kind = match read_string(&doc, "type") {
            Some(kind) => kind,
            None => {
                return Err(not_a_message());
            },
        };
        let id = read_id(&doc);
        let method = read_string(&doc, "method");
        if str_equal(kind.as_str(), "request") {
            match (id, method, read_payload(&doc, "data")) {
                (Some(id), Some(method), Some(data)) => Ok(
                    WireMessage::Request { id, method, data },
                ),
                _ => Err(not_a_message()),
            }
        } else if str_equal(kind.as_str(), "response") {
            match (id, read_payload(&doc, "result")) {
                (Some(id), Some(result)) => Ok(WireMessage::Response { id, result }),
                _ => Err(not_a_message()),
            }
        } else if str_equal(kind.as_str(), "error") {
            match (id, read_payload(&doc, "error")) {
                (Some(id), Some(error)) => Ok(WireMessage::Error { id, error }),
                _ => Err(not_a_message()),
            }
        } else if str_equal(kind.as_str(), "notification") {
            match (method, read_payload(&doc, "data")) {
                (Some(method), Some(data)) => Ok(WireMessage::Notification { method, data }),
                _ => Err(not_a_message()),
            }
        } else {
            Err(not_a_message())
        }
    }
}

} // verus!
