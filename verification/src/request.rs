//! The inbound request and the response that answers it.

use vstd::prelude::*;

verus! {

/// The formatting dialect used when a request names none.
pub fn default_parse_mode() -> (mode: &'static str)
    ensures
        mode@ == "MarkdownV2"@,
{
    "MarkdownV2"
}

/// One inbound request: a text, the dialect the provider should parse it
/// with, and the chats to deliver it to, in the order they were given.
#[derive(Debug, Clone, PartialEq, Eq)]
pub struct MessageData<'r> {
    pub message: &'r str,
    pub parse_mode: &'r str,
    pub user_list: Vec<i64>,
}

impl<'r> MessageData<'r> {
    /// Builds a request from the fields found in the body. A body without a
    /// `parse_mode` is read as one that asks for the default dialect.
    pub fn new(message: &'r str, parse_mode: Option<&'r str>, user_list: Vec<i64>) -> (data: Self)
        ensures
            data.message@ == message@,
            data.parse_mode@ == match parse_mode {
                Some(mode) => mode@,
                None => "MarkdownV2"@,
            },
            data.user_list@ == user_list@,
    {
        let parse_mode = match parse_mode {
            Some(mode) => mode,
            None => default_parse_mode(),
        };
        MessageData { message, parse_mode, user_list }
    }
}

/// The answer to one request: the recipients the provider accepted the
/// message for, and those it did not, each in the order they were tried.
#[derive(Debug, Clone, PartialEq, Eq)]
pub struct SendMessageResponse {
    pub successful: Vec<i64>,
    pub errors: Vec<i64>,
}

} // verus!
