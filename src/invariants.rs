//! Facts about the reconciliation of events: no two messages of a channel
//! share an id, deletions are idempotent, and a send meets its echo.

use crate::client::{
    Client, Event, after_deleted, after_edited, after_sent, echoed_message, event_effect,
    find_message, message_index_from, messages_effect, sent_effect,
};
use crate::member::UserStatus;
use crate::message::{MessageId, MessageView, Request};
use crate::outbox::after_attempt;
use vstd::prelude::*;

verus! {

/// No two messages share an id.
pub open spec fn ids_unique(s: Seq<MessageView>) -> bool {
    forall|i: int, j: int| 0 <= i < j < s.len() ==> s[i].id != s[j].id
}

proof fn lemma_find_message(s: Seq<MessageView>, id: MessageId, from: int)
    requires
        0 <= from,
    ensures
        match message_index_from(s, id, from) {
            Some(i) => from <= i < s.len() && s[i].id == id,
            None => forall|k: int| from <= k < s.len() ==> s[k].id != id,
        },
    decreases s.len() - from,
{
    if from < s.len() && s[from].id != id {
        lemma_find_message(s, id, from + 1);
    }
}

proof fn lemma_remove_unique(s: Seq<MessageView>, i: int)
    requires
        ids_unique(s),
        0 <= i < s.len(),
    ensures
        ids_unique(s.remove(i)),
        forall|k: int| 0 <= k < s.remove(i).len() ==> s.remove(i)[k].id != s[i].id,
{
    let r = s.remove(i);
    assert forall|a: int, b: int| 0 <= a < b < r.len() implies r[a].id != r[b].id by {
        let a0 = if a < i { a } else { a + 1 };
        let b0 = if b < i { b } else { b + 1 };
        assert(r[a] == s[a0] && r[b] == s[b0]);
    }
    assert forall|k: int| 0 <= k < r.len() implies r[k].id != s[i].id by {
        let k0 = if k < i { k } else { k + 1 };
        assert(r[k] == s[k0]);
    }
}

proof fn lemma_sent_unique(s: Seq<MessageView>, echo_id: u64, m: MessageView)
    requires
        ids_unique(s),
        m.id is Ack,
    ensures
        ids_unique(after_sent(s, echo_id, m)),
{
    lemma_find_message(s, MessageId::Unack(echo_id), 0);
    lemma_find_message(s, m.id, 0);
    match find_message(s, MessageId::Unack(echo_id)) {
        Some(i) => {
            let u = s.update(i, m);
            match find_message(s, m.id) {
                Some(j) => {
                    assert(u[j].id == m.id);
                    assert forall|a: int, b: int| 0 <= a < b < u.len() && a != j && b != j
                        implies u[a].id != u[b].id by {
                        if a == i {
                            assert(s[b].id != m.id || b == j);
                        } else if b == i {
                            assert(s[a].id != m.id || a == j);
                        }
                    }
                    let r = u.remove(j);
                    assert forall|a: int, b: int| 0 <= a < b < r.len() implies r[a].id != r[b].id by {
                        let a0 = if a < j { a } else { a + 1 };
                        let b0 = if b < j { b } else { b + 1 };
                        assert(r[a] == u[a0] && r[b] == u[b0]);
                    }
                },
                None => {},
            }
        },
        None => match find_message(s, m.id) {
            Some(j) => {},
            None => {
                let r = s.push(m);
                assert forall|a: int, b: int| 0 <= a < b < r.len() implies r[a].id != r[b].id by {
                    if b == s.len() {
                        assert(r[a] == s[a]);
                    }
                }
            },
        },
    }
}

proof fn lemma_deleted_unique(s: Seq<MessageView>, message_id: u64)
    requires
        ids_unique(s),
    ensures
        ids_unique(after_deleted(s, message_id)),
        find_message(after_deleted(s, message_id), MessageId::Ack(message_id)) is None,
{
    lemma_find_message(s, MessageId::Ack(message_id), 0);
    if let Some(i) = find_message(s, MessageId::Ack(message_id)) {
        lemma_remove_unique(s, i);
    }
    let r = after_deleted(s, message_id);
    lemma_find_message(r, MessageId::Ack(message_id), 0);
}

/// Deleting a message that a channel does not hold leaves its messages as
/// they are; deleting the same message twice leaves what deleting it once
/// leaves, where no two messages share an id.
pub proof fn lemma_delete_idempotent(s: Seq<MessageView>, message_id: u64)
    requires
        ids_unique(s),
    ensures
        find_message(s, MessageId::Ack(message_id)) is None ==> after_deleted(s, message_id) == s,
        after_deleted(after_deleted(s, message_id), message_id) == after_deleted(s, message_id),
{
    lemma_deleted_unique(s, message_id);
}

/// Applying the same deletion event twice leaves the client as applying it
/// once does (the second changes no message), where no two messages of the
/// channel share an id.
pub proof fn lemma_delete_event_twice(
    c0: Client,
    c1: Client,
    c2: Client,
    first_post: Seq<Request>,
    second_post: Seq<Request>,
    guild_id: u64,
    channel_id: u64,
    message_id: u64,
)
    requires
        ids_unique(c0.channel(guild_id, channel_id).messages_view()),
        event_effect(c0, c1, first_post, Event::DeletedMessage { guild_id, channel_id, message_id }),
        event_effect(c1, c2, second_post, Event::DeletedMessage { guild_id, channel_id, message_id }),
    ensures
        c2.guilds@.dom() == c1.guilds@.dom(),
        c2.members@ == c1.members@,
        c2.has_channel(guild_id, channel_id) == c1.has_channel(guild_id, channel_id),
        c2.channel(guild_id, channel_id).messages_view() == c1.channel(
            guild_id,
            channel_id,
        ).messages_view(),
        first_post.len() == 0 && second_post.len() == 0,
{
    lemma_delete_idempotent(c0.channel(guild_id, channel_id).messages_view(), message_id);
    if c1.has_channel(guild_id, channel_id) {
        assert(c1.channel(guild_id, channel_id).messages_view() == after_deleted(
            c0.channel(guild_id, channel_id).messages_view(),
            message_id,
        ));
    }
}

/// Sending message `m` under transaction `t` and then receiving the
/// server's echo of it under id `sid` leaves exactly one copy, acknowledged
/// under `sid` and holding `m`'s content, in place of the pending one.
pub proof fn lemma_send_then_echo(
    c0: Client,
    c1: Client,
    c2: Client,
    post: Seq<Request>,
    guild_id: u64,
    channel_id: u64,
    t: u64,
    sid: u64,
    m: MessageView,
    echoed: MessageView,
)
    requires
        c0.has_channel(guild_id, channel_id),
        find_message(c0.channel(guild_id, channel_id).messages_view(), MessageId::Unack(t)) is None,
        find_message(c0.channel(guild_id, channel_id).messages_view(), MessageId::Ack(sid)) is None,
        m.id == MessageId::Unack(t),
        echoed.id == MessageId::Ack(sid),
        echoed.content == m.content,
        messages_effect(
            c0,
            c1,
            guild_id,
            channel_id,
            after_attempt(c0.channel(guild_id, channel_id).messages_view(), 0, m),
        ),
        sent_effect(c1, c2, post, t, guild_id, channel_id, echoed),
    ensures
        c2.has_channel(guild_id, channel_id),
        c2.channel(guild_id, channel_id).messages_view() == c0.channel(
            guild_id,
            channel_id,
        ).messages_view().push(echoed),
        c2.channel(guild_id, channel_id).messages_view().len() == c0.channel(
            guild_id,
            channel_id,
        ).messages_view().len() + 1,
        c2.channel(guild_id, channel_id).messages_view().last().content == m.content,
{
    let s = c0.channel(guild_id, channel_id).messages_view();
    let s1 = s.push(m);
    lemma_find_message(s, MessageId::Unack(t), 0);
    lemma_find_message(s, MessageId::Ack(sid), 0);
    lemma_find_message(s1, MessageId::Unack(t), 0);
    lemma_find_message(s1, MessageId::Ack(sid), 0);
    assert(s1[s.len() as int].id == MessageId::Unack(t));
    assert(find_message(s1, MessageId::Unack(t)) == Some(s.len() as int));
    assert(s1.update(s.len() as int, echoed) =~= s.push(echoed));
}

/// A profile update that does not flag the user name leaves a known
/// member's name as it was, whatever name the update carries.
pub proof fn lemma_username_kept(
    c0: Client,
    c1: Client,
    post: Seq<Request>,
    user_id: u64,
    new_username: String,
    new_avatar: Option<String>,
    update_avatar: bool,
    new_status: UserStatus,
    update_status: bool,
)
    requires
        c0.members@.contains_key(user_id),
        event_effect(
            c0,
            c1,
            post,
            Event::ProfileUpdated {
                user_id,
                new_username,
                update_username: false,
                new_avatar,
                update_avatar,
                new_status,
                update_status,
            },
        ),
    ensures
        c1.members@.contains_key(user_id),
        c1.members@[user_id].username@ == c0.members@[user_id].username@,
{
}

proof fn lemma_edited_unique(s: Seq<MessageView>, message_id: u64, text: Seq<char>)
    requires
        ids_unique(s),
    ensures
        ids_unique(after_edited(s, message_id, text)),
{
    lemma_find_message(s, MessageId::Ack(message_id), 0);
    let r = after_edited(s, message_id, text);
    assert forall|a: int, b: int| 0 <= a < b < r.len() implies r[a].id != r[b].id by {
        assert(r[a].id == s[a].id && r[b].id == s[b].id);
    }
}

proof fn lemma_frame_channel(old: Client, new: Client, guild_id: u64, channel_id: u64)
    requires
        old.messages_unique(),
        old.has_channel(guild_id, channel_id),
        new.only_channel_changed(&old, guild_id, channel_id),
        ids_unique(new.channel(guild_id, channel_id).messages_view()),
    ensures
        new.messages_unique(),
{
    assert forall|g: u64, c: u64| #[trigger] new.has_channel(g, c) implies ids_unique(
        new.channel(g, c).messages_view(),
    ) by {
        if g != guild_id {
            assert(old.guilds@.insert(guild_id, new.guilds@[guild_id]).contains_key(g));
            assert(new.guilds@[g] == old.guilds@[g]);
            assert(old.has_channel(g, c));
        } else if c != channel_id {
            assert(new.channel(g, c) == old.channel(g, c));
            assert(old.has_channel(g, c));
        }
    }
}

proof fn lemma_frame_guild(old: Client, new: Client, guild_id: u64)
    requires
        old.messages_unique(),
        new.only_guild_changed(&old, guild_id),
        forall|c: u64| #[trigger]
            new.guilds@[guild_id].channels@.contains_key(c) ==> ids_unique(
                new.channel(guild_id, c).messages_view(),
            ),
    ensures
        new.messages_unique(),
{
    assert forall|g: u64, c: u64| #[trigger] new.has_channel(g, c) implies ids_unique(
        new.channel(g, c).messages_view(),
    ) by {
        if g != guild_id {
            assert(old.guilds@.insert(guild_id, new.guilds@[guild_id]).contains_key(g));
            assert(new.guilds@[g] == old.guilds@[g]);
            assert(old.has_channel(g, c));
        }
    }
}

proof fn lemma_frame_same(old: Client, new: Client)
    requires
        old.messages_unique(),
        new.guilds@ == old.guilds@,
    ensures
        new.messages_unique(),
{
    assert forall|g: u64, c: u64| #[trigger] new.has_channel(g, c) implies ids_unique(
        new.channel(g, c).messages_view(),
    ) by {
        assert(old.has_channel(g, c));
    }
}

impl Client {
    /// In every channel, no two messages share an id: neither two pending
    /// copies of one transaction nor two copies of one acknowledged message.
    pub open spec fn messages_unique(&self) -> bool {
        forall|g: u64, c: u64| #[trigger]
            self.has_channel(g, c) ==> ids_unique(self.channel(g, c).messages_view())
    }
}

/// Applying any event keeps every channel free of two messages with one
/// id, so that this holds after any sequence of events.
pub proof fn lemma_event_keeps_ids_unique(old: Client, new: Client, post: Seq<Request>, event: Event)
    requires
        old.messages_unique(),
        event_effect(old, new, post, event),
    ensures
        new.messages_unique(),
{
    if new.guilds@ == old.guilds@ {
        lemma_frame_same(old, new);
    } else {
        lemma_event_changes_keep_ids_unique(old, new, post, event);
    }
}

proof fn lemma_event_changes_keep_ids_unique(old: Client, new: Client, post: Seq<Request>, event: Event)
    requires
        old.messages_unique(),
        event_effect(old, new, post, event),
        new.guilds@ != old.guilds@,
    ensures
        new.messages_unique(),
{
    match event {
        Event::SentMessage { echo_id, guild_id, channel_id, message_id, content, overrides } => {
            if old.has_channel(guild_id, channel_id) {
                lemma_sent_unique(
                    old.channel(guild_id, channel_id).messages_view(),
                    echo_id,
                    echoed_message(message_id, content, overrides),
                );
                lemma_frame_channel(old, new, guild_id, channel_id);
            }
        },
        Event::DeletedMessage { guild_id, channel_id, message_id } => {
            if old.has_channel(guild_id, channel_id) {
                lemma_deleted_unique(old.channel(guild_id, channel_id).messages_view(), message_id);
                lemma_frame_channel(old, new, guild_id, channel_id);
            }
        },
        Event::EditedMessage { guild_id, channel_id, message_id, content } => {
            if old.has_channel(guild_id, channel_id) {
                lemma_edited_unique(
                    old.channel(guild_id, channel_id).messages_view(),
                    message_id,
                    content@,
                );
                lemma_frame_channel(old, new, guild_id, channel_id);
            }
        },
        Event::DeletedChannel { guild_id, channel_id } => {
            if old.guilds@.contains_key(guild_id) {
                assert forall|c: u64| #[trigger]
                    new.guilds@[guild_id].channels@.contains_key(c) implies ids_unique(
                    new.channel(guild_id, c).messages_view(),
                ) by {
                    assert(old.has_channel(guild_id, c));
                }
                lemma_frame_guild(old, new, guild_id);
            }
        },
        Event::EditedChannel { guild_id, channel_id, .. } => {
            if old.has_channel(guild_id, channel_id) {
                assert forall|c: u64| #[trigger]
                    new.guilds@[guild_id].channels@.contains_key(c) implies ids_unique(
                    new.channel(guild_id, c).messages_view(),
                ) by {
                    assert(old.has_channel(guild_id, c));
                }
                lemma_frame_guild(old, new, guild_id);
            }
        },
        Event::CreatedChannel { guild_id, channel_id, .. } => {
            if old.guilds@.contains_key(guild_id) {
                assert forall|c: u64| #[trigger]
                    new.guilds@[guild_id].channels@.contains_key(c) implies ids_unique(
                    new.channel(guild_id, c).messages_view(),
                ) by {
                    if c != channel_id {
                        assert(old.has_channel(guild_id, c));
                    }
                }
                lemma_frame_guild(old, new, guild_id);
            }
        },
        Event::Typing { .. } => {},
        Event::JoinedMember { guild_id, member_id } => {
            if member_id != 0 && old.guilds@.contains_key(guild_id) {
                assert forall|c: u64| #[trigger]
                    new.guilds@[guild_id].channels@.contains_key(c) implies ids_unique(
                    new.channel(guild_id, c).messages_view(),
                ) by {
                    assert(old.has_channel(guild_id, c));
                }
                lemma_frame_guild(old, new, guild_id);
            }
        },
        Event::LeftMember { guild_id, .. } => {
            if old.guilds@.contains_key(guild_id) {
                assert forall|c: u64| #[trigger]
                    new.guilds@[guild_id].channels@.contains_key(c) implies ids_unique(
                    new.channel(guild_id, c).messages_view(),
                ) by {
                    assert(old.has_channel(guild_id, c));
                }
                lemma_frame_guild(old, new, guild_id);
            }
        },
        Event::ProfileUpdated { .. } => {},
        Event::GuildAddedToList { guild_id } => {
            lemma_frame_guild(old, new, guild_id);
        },
        Event::GuildRemovedFromList { guild_id } => {
            assert forall|g: u64, c: u64| #[trigger] new.has_channel(g, c) implies ids_unique(
                new.channel(g, c).messages_view(),
            ) by {
                assert(old.has_channel(g, c));
            }
        },
        Event::DeletedGuild { guild_id } => {
            assert forall|g: u64, c: u64| #[trigger] new.has_channel(g, c) implies ids_unique(
                new.channel(g, c).messages_view(),
            ) by {
                assert(old.has_channel(g, c));
            }
        },
        Event::EditedGuild { guild_id, .. } => {
            if old.guilds@.contains_key(guild_id) {
                assert forall|c: u64| #[trigger]
                    new.guilds@[guild_id].channels@.contains_key(c) implies ids_unique(
                    new.channel(guild_id, c).messages_view(),
                ) by {
                    assert(old.has_channel(guild_id, c));
                }
            }
            lemma_frame_guild(old, new, guild_id);
        },
    }
}

} // verus!
