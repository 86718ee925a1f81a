//! Locally started actions: sends with their retries, edits and deletions.
//! The library decides what to ask for and what a result comes to; the
//! caller dispatches the requests and waits.

use crate::client::{Client, Event, messages_effect};
use crate::message::{Message, MessageId, MessageView, messages_view};
use vstd::prelude::*;

verus! {

broadcast use vstd::std_specs::hash::group_hash_axioms;

/// The step, in seconds, by which each retry of a failed send waits longer
/// than the attempt before it.
pub const RETRY_STEP_SECS: u64 = 1;

/// A send of a message to dispatch once `retry_after` seconds have passed.
#[derive(Debug)]
pub struct SendRequest {
    pub guild_id: u64,
    pub channel_id: u64,
    pub retry_after: u64,
    pub message: Message,
}

/// What a dispatched send comes to.
#[derive(Debug)]
pub enum SendOutcome {
    /// The server took the message: this event acknowledges it locally.
    Sent(Event),
    /// The send failed: dispatch this request again.
    Retry(SendRequest),
}

/// An edit of a message's text to dispatch.
#[derive(Debug)]
pub struct EditRequest {
    pub guild_id: u64,
    pub channel_id: u64,
    pub message_id: u64,
    pub new_content: String,
}

/// A deletion of a message to dispatch.
#[derive(Debug, Clone, Copy, PartialEq, Eq, Structural)]
pub struct DeleteRequest {
    pub guild_id: u64,
    pub channel_id: u64,
    pub message_id: u64,
}

/// An edit or deletion that the server refused; it is not retried.
#[derive(Debug, Clone, Copy, PartialEq, Eq, Structural)]
pub enum ActionError {
    EditFailed { guild_id: u64, channel_id: u64, message_id: u64 },
    DeleteFailed { guild_id: u64, channel_id: u64, message_id: u64 },
}

/// Decides what a dispatched send comes to, given the id the server gave
/// the message, or none where the send failed. On success the outcome is
/// the acknowledgement of the pending copy; on failure the same send is
/// asked for again, waiting one step longer.
pub fn on_send_result(request: SendRequest, result: Option<u64>) -> (r: SendOutcome)
    requires
        request.message.id is Unack,
        request.retry_after < u64::MAX,
    ensures
        match result {
            Some(message_id) => r matches SendOutcome::Sent(Event::SentMessage {
                echo_id,
                guild_id,
                channel_id,
                message_id: acked,
                content,
                overrides,
            }) && MessageId::Unack(echo_id) == request.message.id && guild_id == request.guild_id
                && channel_id == request.channel_id && acked == message_id && content
                == request.message.content && overrides == request.message.overrides,
            None => r matches SendOutcome::Retry(q) && q.guild_id == request.guild_id
                && q.channel_id == request.channel_id && q.retry_after == request.retry_after
                + RETRY_STEP_SECS && q.message == request.message,
        },
{
    match result {
        Some(message_id) => {
            let echo_id = match request.message.id {
                MessageId::Unack(t) => t,
                MessageId::Ack(i) => i,
            };
            SendOutcome::Sent(
                Event::SentMessage {
                    echo_id,
                    guild_id: request.guild_id,
                    channel_id: request.channel_id,
                    message_id,
                    content: request.message.content,
                    overrides: request.message.overrides,
                },
            )
        },
        None => SendOutcome::Retry(
            SendRequest {
                guild_id: request.guild_id,
                channel_id: request.channel_id,
                retry_after: request.retry_after + RETRY_STEP_SECS,
                message: request.message,
            },
        ),
    }
}

/// Decides what a dispatched edit comes to: nothing on success (the
/// server's edit event brings the new text), the error on failure.
pub fn on_edit_result(request: &EditRequest, succeeded: bool) -> (r: Result<(), ActionError>)
    ensures
        succeeded ==> r is Ok,
        !succeeded ==> r == Err::<(), ActionError>(
            ActionError::EditFailed {
                guild_id: request.guild_id,
                channel_id: request.channel_id,
                message_id: request.message_id,
            },
        ),
{
    if succeeded {
        Ok(())
    } else {
        Err(
            ActionError::EditFailed {
                guild_id: request.guild_id,
                channel_id: request.channel_id,
                message_id: request.message_id,
            },
        )
    }
}

/// Decides what a dispatched deletion comes to: nothing on success (the
/// server's deletion event removes the message), the error on failure.
pub fn on_delete_result(request: &DeleteRequest, succeeded: bool) -> (r: Result<(), ActionError>)
    ensures
        succeeded ==> r is Ok,
        !succeeded ==> r == Err::<(), ActionError>(
            ActionError::DeleteFailed {
                guild_id: request.guild_id,
                channel_id: request.channel_id,
                message_id: request.message_id,
            },
        ),
{
    if succeeded {
        Ok(())
    } else {
        Err(
            ActionError::DeleteFailed {
                guild_id: request.guild_id,
                channel_id: request.channel_id,
                message_id: request.message_id,
            },
        )
    }
}

/// The messages after an attempt to send `m` that waited `retry_after`
/// seconds: only the first attempt puts the pending copy in.
pub open spec fn after_attempt(s: Seq<MessageView>, retry_after: u64, m: MessageView) -> Seq<MessageView> {
    if retry_after == 0 {
        s.push(m)
    } else {
        s
    }
}

/// The messages after a first attempt to send `m` and `n` retries, each
/// waiting one step longer than the one before.
pub open spec fn after_attempts(s: Seq<MessageView>, m: MessageView, n: nat) -> Seq<MessageView>
    decreases n,
{
    if n == 0 {
        after_attempt(s, 0, m)
    } else {
        after_attempt(after_attempts(s, m, (n - 1) as nat), (n * RETRY_STEP_SECS) as u64, m)
    }
}

/// Over a first attempt and any number of retries of a send (as long as the
/// delay fits in a `u64`), the pending copy goes into the channel once.
pub proof fn lemma_placeholder_inserted_once(s: Seq<MessageView>, m: MessageView, n: nat)
    requires
        n * RETRY_STEP_SECS <= u64::MAX,
    ensures
        after_attempts(s, m, n) == s.push(m),
    decreases n,
{
    if n > 0 {
        lemma_placeholder_inserted_once(s, m, (n - 1) as nat);
    }
}

impl Client {
    /// Sends `message` to a channel after `retry_after` seconds: the first
    /// attempt (no wait) puts the pending copy into the channel at once, and
    /// every attempt gives the request for the caller to dispatch. Nothing
    /// happens where the channel is unknown.
    pub fn send_msg_cmd(
        &mut self,
        guild_id: u64,
        channel_id: u64,
        retry_after: u64,
        message: Message,
    ) -> (r: Option<SendRequest>)
        requires
            message.id is Unack,
        ensures
            old(self).has_channel(guild_id, channel_id) ==> {
                &&& r matches Some(q) && q.guild_id == guild_id && q.channel_id == channel_id
                    && q.retry_after == retry_after && q.message == message
                &&& messages_effect(
                    *old(self),
                    *final(self),
                    guild_id,
                    channel_id,
                    after_attempt(
                        old(self).channel(guild_id, channel_id).messages_view(),
                        retry_after,
                        message@,
                    ),
                )
            },
            !old(self).has_channel(guild_id, channel_id) ==> r is None && final(self).unchanged(
                old(self),
            ),
    {
        if !self.contains_channel(guild_id, channel_id) {
            return None;
        }
        let (guild, mut channel) = self.take_channel(guild_id, channel_id);
        let ghost s = channel.messages@;
        if retry_after == 0 {
            channel.messages.push(message.duplicate());
            proof {
                assert(messages_view(channel.messages@) =~= messages_view(s).push(message@));
            }
        }
        self.put_channel(guild_id, channel_id, guild, channel);
        proof {
            assert(self.guilds@ =~= old(self).guilds@.insert(guild_id, self.guilds@[guild_id]));
            assert(self.guilds@[guild_id].channels@ =~= old(self).guilds@[guild_id].channels@.insert(
                channel_id,
                self.channel(guild_id, channel_id),
            ));
        }
        Some(SendRequest { guild_id, channel_id, retry_after, message })
    }

    /// The request to change the text of message `message_id`; the state
    /// changes when the server's edit event arrives.
    pub fn edit_msg_cmd(
        &self,
        guild_id: u64,
        channel_id: u64,
        message_id: u64,
        new_content: String,
    ) -> (r: EditRequest)
        ensures
            r.guild_id == guild_id,
            r.channel_id == channel_id,
            r.message_id == message_id,
            r.new_content == new_content,
    {
        EditRequest { guild_id, channel_id, message_id, new_content }
    }

    /// The request to delete message `message_id`; the state changes when
    /// the server's deletion event arrives.
    pub fn delete_msg_cmd(&self, guild_id: u64, channel_id: u64, message_id: u64) -> (r: DeleteRequest)
        ensures
            r == (DeleteRequest { guild_id, channel_id, message_id }),
    {
        DeleteRequest { guild_id, channel_id, message_id }
    }
}

} // verus!
