//! What goes to Telegram, and when.
use vstd::prelude::*;
use vstd::string::*;

use crate::config::{AppConfig, Settings};
use crate::text::{first_chars, prefix};

verus! {

/// The longest message that is sent, in characters.
pub const MESSAGE_CHARS: usize = 4_096;

/// A message that is ready to be sent.
#[derive(Debug, Clone, PartialEq)]
pub struct TelegramMessage {
    pub url: String,
    pub chat_id: String,
    pub text: String,
}

/// There is something to send, and somewhere to send it.
pub open spec fn is_deliverable(cfg: Settings, text: Seq<char>) -> bool {
    text.len() > 0 && cfg.telegram_bot_token.len() > 0 && cfg.telegram_chat_id.len() > 0
}

/// The message for a text: none for the empty text, and none while no bot is
/// configured. A long text is cut.
pub fn telegram_message(cfg: &AppConfig, text: &str) -> (r: Option<TelegramMessage>)
    ensures
        match r {
            Some(m) => {
                &&& is_deliverable(cfg@, text@)
                &&& m.url@ == "https://api.telegram.org/bot"@ + cfg@.telegram_bot_token + "/sendMessage"@
                &&& m.chat_id@ == cfg@.telegram_chat_id
                &&& m.text@ == first_chars(text@, MESSAGE_CHARS as nat)
            },
            None => !is_deliverable(cfg@, text@),
        },
{
    if text.unicode_len() == 0 || cfg.telegram_bot_token.as_str().unicode_len() == 0
        || cfg.telegram_chat_id.as_str().unicode_len() == 0 {
        return None;
    }
    let mut url = "https://api.telegram.org/bot".to_owned();
    url.append(cfg.telegram_bot_token.as_str());
    url.append("/sendMessage");
    Some(
        TelegramMessage {
            url,
            chat_id: cfg.telegram_chat_id.clone(),
            text: prefix(text, MESSAGE_CHARS),
        },
    )
}

/// The number of channels that took a message: one where the reply was a success.
pub fn delivered(status: Option<u16>) -> (r: usize)
    ensures
        r == (match status {
            Some(s) => if 200 <= s < 300 {
                1usize
            } else {
                0
            },
            None => 0,
        }),
{
    match status {
        Some(s) => if 200 <= s && s < 300 {
            1
        } else {
            0
        },
        None => 0,
    }
}

} // verus!
