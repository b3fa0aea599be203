//! One delivery attempt: what is sent to the provider, and how its answer is
//! judged.

use vstd::prelude::*;
use vstd::string::StringExecFns;

verus! {

/// The HTTP status with which the provider reports that it took the message.
pub const STATUS_OK: u16 = 200;

/// The body of a `sendMessage` call.
#[derive(Debug, Clone, PartialEq, Eq)]
pub struct TelegramSendMessage {
    pub chat_id: i64,
    pub text: String,
    pub parse_mode: String,
}

/// Everything the transport needs for one attempt: where to post, and what.
#[derive(Debug, Clone, PartialEq, Eq)]
pub struct OutboundCall {
    pub url: String,
    pub body: TelegramSendMessage,
}

/// What came of one attempt, as the transport saw it.
#[derive(Debug, Clone, Copy, PartialEq, Eq, Structural)]
pub enum SendOutcome {
    /// The provider answered, with this HTTP status.
    Status(u16),
    /// No answer was had: the request could not be built or sent, or the
    /// connection failed before a status arrived.
    NoResponse,
}

/// A delivery that did not succeed. It carries no cause: callers learn only
/// that the recipient was not reached.
#[derive(Debug, Clone, Copy, PartialEq, Eq, Structural)]
pub struct SendError;

impl SendOutcome {
    /// An attempt delivered the message when the provider answered 200, and
    /// in no other case.
    pub open spec fn is_delivered(self) -> bool {
        self == SendOutcome::Status(STATUS_OK)
    }
}

/// The address of the provider's `sendMessage` endpoint for the bot that
/// `token` belongs to.
pub open spec fn send_message_url_spec(token: Seq<char>) -> Seq<char> {
    "https://api.telegram.org/bot"@ + token + "/sendMessage"@
}

/// Builds the endpoint address for `token`.
pub fn send_message_url(token: &str) -> (url: String)
    ensures
        url@ == send_message_url_spec(token@),
{
    let mut url = String::from_str("https://api.telegram.org/bot");
    url.append(token);
    url.append("/sendMessage");
    url
}

/// Prepares the attempt to deliver `message_text` to the chat `user_id`.
pub fn telegram_send_request(
    user_id: i64,
    message_text: &str,
    parse_mode: &str,
    token: &str,
) -> (call: OutboundCall)
    ensures
        call.url@ == send_message_url_spec(token@),
        call.body.chat_id == user_id,
        call.body.text@ == message_text@,
        call.body.parse_mode@ == parse_mode@,
{
    OutboundCall {
        url: send_message_url(token),
        body: TelegramSendMessage {
            chat_id: user_id,
            text: String::from_str(message_text),
            parse_mode: String::from_str(parse_mode),
        },
    }
}

/// Judges one attempt: success when the provider answered 200, an error for
/// any other status and for an attempt that got no answer.
pub fn telegram_send_result(outcome: SendOutcome) -> (result: Result<(), SendError>)
    ensures
        result is Ok <==> outcome.is_delivered(),
{
    match outcome {
        SendOutcome::Status(status) => {
            if status == STATUS_OK {
                Ok(())
            } else {
                Err(SendError)
            }
        },
        SendOutcome::NoResponse => Err(SendError),
    }
}

} // verus!
