//! Error replies in the form that clients of the completion API expect.
use vstd::prelude::*;

verus! {

pub const BAD_REQUEST: u16 = 400;

pub const UNAUTHORIZED: u16 = 401;

pub const NOT_FOUND: u16 = 404;

pub const INTERNAL_SERVER_ERROR: u16 = 500;

pub const SERVICE_UNAVAILABLE: u16 = 503;

/// An error reply: its HTTP status, and the fields of the `error` object in its body.
pub struct ErrorReply {
    pub status: u16,
    pub message: String,
    pub err_type: String,
    pub code: u16,
}

impl ErrorReply {
    /// The reply with this status, type and message. Its code is the status.
    pub open spec fn says(self, status: u16, err_type: Seq<char>, message: Seq<char>) -> bool {
        &&& self.status == status
        &&& self.code == status
        &&& self.err_type@ == err_type
        &&& self.message@ == message
    }
}

/// An error reply with this status, type and message.
pub fn openai_error(status: u16, err_type: &str, message: String) -> (reply: ErrorReply)
    ensures
        reply.says(status, err_type@, message@),
{
    ErrorReply { status, message, err_type: err_type.to_owned(), code: status }
}

/// The body of an error reply repeats its status, and holds the type and the message.
pub proof fn law_error_reply_reads_back(
    reply: ErrorReply,
    status: u16,
    err_type: Seq<char>,
    message: Seq<char>,
)
    requires
        reply.says(status, err_type, message),
    ensures
        reply.status == status,
        reply.code == reply.status,
        reply.err_type@ == err_type,
        reply.message@ == message,
{
}

} // verus!
