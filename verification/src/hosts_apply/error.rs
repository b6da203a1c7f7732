//! Apply-time errors and the reply the renderer expects for them.

use vstd::prelude::*;
use crate::json::model::{Json, JsonValue};
use crate::text::{concat, string_of};

verus! {

broadcast use crate::json::model::group_json_view;

/// Why the system hosts file was not written.
#[derive(Debug, PartialEq)]
pub enum HostsApplyError {
    /// The file cannot be written and elevation was refused.
    NoAccess { message: String },
    /// The user dismissed the OS authentication prompt.
    Cancelled,
    /// A step that should normally succeed failed.
    Io { message: String },
}

/// The renderer's `IWriteResult` for a failure:
/// `{ "success": false, "code": code, "message": message }`.
pub open spec fn failure_reply(code: Seq<char>, message: Seq<char>) -> Json {
    Json::Object(
        seq![
            ("success"@, Json::Bool(false)),
            ("code"@, Json::Str(code)),
            ("message"@, Json::Str(message)),
        ],
    )
}

/// The renderer code and message of each error.
pub open spec fn reply_code_message(e: HostsApplyError) -> (Seq<char>, Seq<char>) {
    match e {
        HostsApplyError::NoAccess { message } => ("no_access"@, message@),
        HostsApplyError::Cancelled => ("cancelled"@, "user cancelled"@),
        HostsApplyError::Io { message } => ("fail"@, message@),
    }
}

/// What the error reads as (`no access: ..`, `cancelled`, `io: ..`).
pub open spec fn error_text(e: HostsApplyError) -> Seq<char> {
    match e {
        HostsApplyError::NoAccess { message } => "no access: "@ + message@,
        HostsApplyError::Cancelled => "cancelled"@,
        HostsApplyError::Io { message } => "io: "@ + message@,
    }
}

impl HostsApplyError {
    /// Translate into the renderer's `IWriteResult` JSON shape.
    pub fn into_renderer_value(self) -> (r: JsonValue)
        ensures
            r@ == failure_reply(reply_code_message(self).0, reply_code_message(self).1),
    {
        let ghost cm = reply_code_message(self);
        let (code, message) = match self {
            HostsApplyError::NoAccess { message } => (string_of("no_access"), message),
            HostsApplyError::Cancelled => (string_of("cancelled"), string_of("user cancelled")),
            HostsApplyError::Io { message } => (string_of("fail"), message),
        };
        let mut es: Vec<(String, JsonValue)> = Vec::new();
        es.push((string_of("success"), JsonValue::Bool(false)));
        es.push((string_of("code"), JsonValue::Str(code)));
        es.push((string_of("message"), JsonValue::Str(message)));
        let r = JsonValue::Object(es);
        assert(crate::json::model::object_view(es@) =~= seq![
            ("success"@, Json::Bool(false)),
            ("code"@, Json::Str(cm.0)),
            ("message"@, Json::Str(cm.1)),
        ]);
        r
    }

    /// The error's text.
    pub fn to_text(&self) -> (r: String)
        ensures
            r@ == error_text(*self),
    {
        match self {
            HostsApplyError::NoAccess { message } => concat("no access: ", message.as_str()),
            HostsApplyError::Cancelled => string_of("cancelled"),
            HostsApplyError::Io { message } => concat("io: ", message.as_str()),
        }
    }
}

} // verus!
