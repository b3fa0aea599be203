//! A relay that forwards one message to a list of Telegram chats and reports,
//! per recipient, whether the provider accepted it.
//!
//! The crate holds the rules of the relay: how the configuration is read from
//! the values found in the environment, what is sent to the provider for each
//! recipient, how an answer is judged, and how the outcomes are collected.
//! Network and process I/O are left to the program around it.

pub mod config;
pub mod dispatch;
pub mod outbound;
pub mod request;

pub use config::listen_port;
pub use config::load_config;
pub use config::parse_integer;
pub use config::Config;
pub use config::ConfigError;
pub use config::TelegramBotToken;
pub use config::DEFAULT_PORT;
pub use dispatch::Dispatch;
pub use outbound::send_message_url;
pub use outbound::telegram_send_request;
pub use outbound::telegram_send_result;
pub use outbound::OutboundCall;
pub use outbound::SendError;
pub use outbound::SendOutcome;
pub use outbound::TelegramSendMessage;
pub use outbound::STATUS_OK;
pub use request::default_parse_mode;
pub use request::MessageData;
pub use request::SendMessageResponse;
