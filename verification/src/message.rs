//! Messages of the chat platform, as far as the service reads and writes
//! them, and the decision whether a message is a command for the bot.
use crate::attachment::Attachment;
use crate::command::{parse_command, parse_command_args, CommandArgs};
use vstd::prelude::*;

verus! {

/// A user of the chat platform.
#[derive(Debug)]
pub struct User {
    pub id: String,
    /// Whether the user is a bot; absent for most users.
    pub bot: Option<bool>,
}

/// A reference from a reply to the message it answers.
#[derive(Debug)]
pub struct MessageReference {
    pub kind: Option<i64>,
    pub message_id: Option<String>,
    pub channel_id: Option<String>,
    pub guild_id: Option<String>,
    pub fail_if_not_exists: Option<bool>,
}

impl MessageReference {
    /// A reference to the message `message_id` and nothing else.
    pub fn to_message(message_id: String) -> (r: MessageReference)
        ensures
            r.message_id == Some(message_id),
            r.kind is None,
            r.channel_id is None,
            r.guild_id is None,
            r.fail_if_not_exists is None,
    {
        MessageReference {
            kind: None,
            message_id: Some(message_id),
            channel_id: None,
            guild_id: None,
            fail_if_not_exists: None,
        }
    }
}

impl Default for MessageReference {
    fn default() -> (r: MessageReference)
        ensures
            r.kind is None,
            r.message_id is None,
            r.channel_id is None,
            r.guild_id is None,
            r.fail_if_not_exists is None,
    {
        MessageReference {
            kind: None,
            message_id: None,
            channel_id: None,
            guild_id: None,
            fail_if_not_exists: None,
        }
    }
}

/// A message as the gateway delivers it.
#[derive(Debug)]
pub struct Message {
    pub id: String,
    pub author: User,
    pub channel_id: String,
    pub content: String,
    pub attachments: Vec<Attachment>,
    pub mentions: Vec<User>,
    pub message_reference: Option<MessageReference>,
}

/// A message to send, or the new state of a message to edit.
#[derive(Debug)]
pub struct MessageSend {
    pub content: Option<String>,
    pub message_reference: Option<MessageReference>,
    /// Files to upload with the message, as name and content.
    pub attachments: Option<Vec<(String, Vec<u8>)>>,
}

/// The body of a plain text message.
#[derive(Debug)]
pub struct MessagePayload {
    pub content: String,
    pub message_reference: Option<MessageReference>,
}

impl MessageSend {
    /// A text message that answers the message `reply_to`.
    pub fn reply(content: String, reply_to: String) -> (r: MessageSend)
        ensures
            r.content == Some(content),
            r.message_reference matches Some(m) && m.message_id == Some(reply_to),
            r.attachments is None,
    {
        MessageSend {
            content: Some(content),
            message_reference: Some(MessageReference::to_message(reply_to)),
            attachments: None,
        }
    }

    /// The final state of a status message: its text and the files that go
    /// with it.
    pub fn with_files(content: String, files: Vec<(String, Vec<u8>)>) -> (r: MessageSend)
        ensures
            r.content == Some(content),
            r.message_reference is None,
            r.attachments == Some(files),
    {
        MessageSend { content: Some(content), message_reference: None, attachments: Some(files) }
    }

    /// Whether the message goes out as a multipart form, with
    /// `payload_json` and one part `files[i]` for each file, and not as
    /// plain JSON.
    pub fn is_multipart(&self) -> (r: bool)
        ensures
            r == self.attachments is Some,
    {
        self.attachments.is_some()
    }
}

/// Whether the author of the message is a bot.
pub open spec fn from_bot(message: &Message) -> bool {
    message.author.bot == Some(true)
}

/// Whether the message mentions the user `user_id`.
pub open spec fn mentions_user(message: &Message, user_id: Seq<char>) -> bool {
    exists|k: int| 0 <= k < message.mentions@.len() && (#[trigger] message.mentions@[k]).id@ == user_id
}

/// The command that a message gives the bot: none if a bot wrote the
/// message or if it does not mention the bot, else what its text spells.
pub open spec fn command_of(message: &Message, bot_user_id: Seq<char>) -> Option<CommandArgs> {
    if from_bot(message) || !mentions_user(message, bot_user_id) {
        None
    } else {
        parse_command(message.content@, bot_user_id)
    }
}

/// Reads a message that came in: the arguments of the command that it
/// gives the bot, if it gives one.
pub fn read_message(message: &Message, bot_user_id: &str) -> (r: Option<CommandArgs>)
    ensures
        r == command_of(message, bot_user_id@),
{
    if let Some(true) = message.author.bot {
        return None;
    }
    let mut mentioned = false;
    let mut k: usize = 0;
    while k < message.mentions.len()
        invariant
            k <= message.mentions.len(),
            mentioned ==> mentions_user(message, bot_user_id@),
            !mentioned ==> forall|j: int|
                0 <= j < k ==> (#[trigger] message.mentions@[j]).id@ != bot_user_id@,
        decreases message.mentions.len() - k,
    {
        if crate::text::str_eq(message.mentions[k].id.as_str(), bot_user_id) {
            mentioned = true;
        }
        k += 1;
    }
    if !mentioned {
        return None;
    }
    parse_command_args(message.content.as_str(), bot_user_id)
}

} // verus!
