//! The client state and the reconciliation of remote events, local sends and
//! history pages with it.

use crate::guild::{Channel, Guild, reordered, without_id};
use crate::member::{Member, MemberView, UserStatus};
use crate::message::{
    Content, ContentView, Message, MessageId, MessageView, Overrides, PostProcessEvent, Request,
    avatar_override, content_icons, image_fetches, messages_view, opt_overrides, opt_text,
    push_image_fetch, requests_view,
};
use crate::invariants::lemma_event_keeps_ids_unique;
use std::collections::HashMap;
use vstd::prelude::*;

verus! {

broadcast use vstd::std_specs::hash::group_hash_axioms;

/// How many of the newest messages count as "at the end" for the viewer.
pub const SHOWN_MSGS_LIMIT: usize = 32;

/// `a - b`, or 0 where `b` is larger.
pub open spec fn saturating_sub(a: int, b: int) -> int {
    if a >= b {
        a - b
    } else {
        0
    }
}

/// The first index from `i` on of a message with id `id`.
pub open spec fn message_index_from(s: Seq<MessageView>, id: MessageId, i: int) -> Option<int>
    decreases s.len() - i,
{
    if i < 0 || i >= s.len() {
        None
    } else if s[i].id == id {
        Some(i)
    } else {
        message_index_from(s, id, i + 1)
    }
}

/// The first index of a message with id `id`.
pub open spec fn find_message(s: Seq<MessageView>, id: MessageId) -> Option<int> {
    message_index_from(s, id, 0)
}

/// The messages after the server's echo of a sent message `m`: it replaces
/// the pending copy sent under `echo_id`, or else an earlier copy of
/// itself, or else goes last; a copy of itself left beside the replaced
/// pending one is dropped.
pub open spec fn after_sent(s: Seq<MessageView>, echo_id: u64, m: MessageView) -> Seq<MessageView> {
    match find_message(s, MessageId::Unack(echo_id)) {
        Some(i) => match find_message(s, m.id) {
            Some(j) => s.update(i, m).remove(j),
            None => s.update(i, m),
        },
        None => match find_message(s, m.id) {
            Some(j) => s.update(j, m),
            None => s.push(m),
        },
    }
}

/// The messages after the server deleted message `message_id`.
pub open spec fn after_deleted(s: Seq<MessageView>, message_id: u64) -> Seq<MessageView> {
    match find_message(s, MessageId::Ack(message_id)) {
        Some(i) => s.remove(i),
        None => s,
    }
}

/// The messages after the server replaced the text of message `message_id`.
pub open spec fn after_edited(s: Seq<MessageView>, message_id: u64, text: Seq<char>) -> Seq<
    MessageView,
> {
    match find_message(s, MessageId::Ack(message_id)) {
        Some(i) => s.update(i, MessageView { content: ContentView::Text(text), ..s[i] }),
        None => s,
    }
}

/// Whether a viewer whose cursor is at `cursor` follows the newest message
/// of a list of `len` messages.
pub open spec fn follows_latest(cursor: int, len: int) -> bool {
    cursor >= saturating_sub(len, SHOWN_MSGS_LIMIT as int)
}

fn find_message_exec(msgs: &Vec<Message>, id: MessageId) -> (r: Option<usize>)
    ensures
        match r {
            Some(k) => k < msgs@.len() && find_message(messages_view(msgs@), id) == Some(k as int),
            None => find_message(messages_view(msgs@), id) is None,
        },
{
    let mut i: usize = 0;
    while i < msgs.len()
        invariant
            i <= msgs@.len(),
            find_message(messages_view(msgs@), id) == message_index_from(
                messages_view(msgs@),
                id,
                i as int,
            ),
        decreases msgs@.len() - i,
    {
        if msgs[i].id == id {
            return Some(i);
        }
        i = i + 1;
    }
    None
}

proof fn lemma_view_update(s: Seq<Message>, i: int, m: Message)
    requires
        0 <= i < s.len(),
    ensures
        messages_view(s.update(i, m)) == messages_view(s).update(i, m@),
{
    assert(messages_view(s.update(i, m)) =~= messages_view(s).update(i, m@));
}

proof fn lemma_view_remove(s: Seq<Message>, i: int)
    requires
        0 <= i < s.len(),
    ensures
        messages_view(s.remove(i)) == messages_view(s).remove(i),
{
    assert(messages_view(s.remove(i)) =~= messages_view(s).remove(i));
}

proof fn lemma_view_push(s: Seq<Message>, m: Message)
    ensures
        messages_view(s.push(m)) == messages_view(s).push(m@),
{
    assert(messages_view(s.push(m)) =~= messages_view(s).push(m@));
}

/// Applies the echo of a sent message to a channel's messages.
fn apply_sent(ch: &mut Channel, echo_id: u64, m: Message)
    ensures
        final(ch).messages_view() == after_sent(old(ch).messages_view(), echo_id, m@),
        final(ch).same_but_messages(old(ch)),
        final(ch).looking_at_message == old(ch).looking_at_message,
{
    let ghost m_view = m@;
    let ghost s = ch.messages@;
    let pending = find_message_exec(&ch.messages, MessageId::Unack(echo_id));
    let copy = find_message_exec(&ch.messages, m.id);
    match pending {
        Some(i) => {
            ch.messages[i] = m;
            proof {
                lemma_view_update(s, i as int, m);
            }
            if let Some(j) = copy {
                proof {
                    lemma_view_remove(s.update(i as int, m), j as int);
                }
                ch.messages.remove(j);
            }
        },
        None => match copy {
            Some(j) => {
                ch.messages[j] = m;
                proof {
                    lemma_view_update(s, j as int, m);
                }
            },
            None => {
                ch.messages.push(m);
                proof {
                    lemma_view_push(s, m);
                }
            },
        },
    }
}

/// Applies the deletion of message `message_id` to a channel's messages.
fn apply_deleted(ch: &mut Channel, message_id: u64)
    ensures
        final(ch).messages_view() == after_deleted(old(ch).messages_view(), message_id),
        final(ch).same_but_messages(old(ch)),
        final(ch).looking_at_message == old(ch).looking_at_message,
{
    let ghost s = ch.messages@;
    if let Some(i) = find_message_exec(&ch.messages, MessageId::Ack(message_id)) {
        ch.messages.remove(i);
        proof {
            lemma_view_remove(s, i as int);
        }
    }
}

/// Applies the new text of message `message_id` to a channel's messages.
fn apply_edited(ch: &mut Channel, message_id: u64, text: String)
    ensures
        final(ch).messages_view() == after_edited(old(ch).messages_view(), message_id, text@),
        final(ch).same_but_messages(old(ch)),
        final(ch).looking_at_message == old(ch).looking_at_message,
{
    let ghost s = ch.messages@;
    let ghost t = text@;
    if let Some(i) = find_message_exec(&ch.messages, MessageId::Ack(message_id)) {
        let old_msg = ch.messages.remove(i);
        let edited = Message { id: old_msg.id, content: Content::Text(text), overrides: old_msg.overrides };
        ch.messages.insert(i, edited);
        proof {
            assert(ch.messages@ =~= s.update(i as int, edited));
            lemma_view_update(s, i as int, edited);
        }
    }
}

/// Moves the viewer's cursor to the newest message where it followed the
/// newest ones, and says whether it did.
fn follow_latest(ch: &mut Channel) -> (r: bool)
    ensures
        r == follows_latest(old(ch).looking_at_message as int, old(ch).messages@.len() as int),
        final(ch).looking_at_message == if r {
            saturating_sub(old(ch).messages@.len() as int, 1)
        } else {
            old(ch).looking_at_message as int
        },
        final(ch).messages == old(ch).messages,
        final(ch).same_but_messages(old(ch)),
{
    let disp = ch.messages.len();
    let start = if disp >= SHOWN_MSGS_LIMIT {
        disp - SHOWN_MSGS_LIMIT
    } else {
        0
    };
    if ch.looking_at_message >= start {
        ch.looking_at_message = if disp >= 1 {
            disp - 1
        } else {
            0
        };
        true
    } else {
        false
    }
}

/// The view of the message that the echo of a sent message carries.
pub open spec fn echoed_message(message_id: u64, content: Content, overrides: Option<Overrides>) -> MessageView {
    MessageView {
        id: MessageId::Ack(message_id),
        content: content@,
        overrides: opt_overrides(overrides),
    }
}

/// What the echo of a sent message does to the state and asks for.
pub open spec fn sent_effect(
    old: Client,
    new: Client,
    post: Seq<Request>,
    echo_id: u64,
    guild_id: u64,
    channel_id: u64,
    m: MessageView,
) -> bool {
    if old.has_channel(guild_id, channel_id) {
        let before = old.channel(guild_id, channel_id);
        let after = new.channel(guild_id, channel_id);
        let s = after_sent(before.messages_view(), echo_id, m);
        let follow = follows_latest(before.looking_at_message as int, s.len() as int);
        &&& new.only_channel_changed(&old, guild_id, channel_id)
        &&& after.same_but_messages(&before)
        &&& after.messages_view() == s
        &&& after.looking_at_message == if follow {
            saturating_sub(s.len() as int, 1)
        } else {
            before.looking_at_message as int
        }
        &&& post == image_fetches(avatar_override(m) + content_icons(m)) + if follow {
            seq![Request::GoToFirstMsgOnChannel(channel_id)]
        } else {
            Seq::empty()
        }
    } else {
        new.unchanged(&old) && post == Seq::<Request>::empty()
    }
}

/// What a change to the messages of a channel does to the state, where `s`
/// holds the new messages.
pub open spec fn messages_effect(
    old: Client,
    new: Client,
    guild_id: u64,
    channel_id: u64,
    s: Seq<MessageView>,
) -> bool {
    if old.has_channel(guild_id, channel_id) {
        let before = old.channel(guild_id, channel_id);
        let after = new.channel(guild_id, channel_id);
        &&& new.only_channel_changed(&old, guild_id, channel_id)
        &&& after.same_but_messages(&before)
        &&& after.messages_view() == s
        &&& after.looking_at_message == before.looking_at_message
    } else {
        new.unchanged(&old)
    }
}

/// `after` is `before` renamed to `name`, with all else kept.
pub open spec fn channel_renamed(after: Channel, before: Channel, name: String) -> bool {
    &&& after.name == name
    &&& after.is_category == before.is_category
    &&& after.messages == before.messages
    &&& after.looking_at_message == before.looking_at_message
    &&& after.reached_top == before.reached_top
    &&& after.loading_messages_history == before.loading_messages_history
}

/// `g` agrees with `base` on everything but its members.
pub open spec fn same_guild_but_members(g: Guild, base: Guild) -> bool {
    &&& g.name == base.name
    &&& g.picture == base.picture
    &&& g.channels == base.channels
    &&& g.channel_order == base.channel_order
}

/// What a change of channel `channel_id`'s name or place does.
pub open spec fn channel_edit_effect(
    old: Client,
    new: Client,
    guild_id: u64,
    channel_id: u64,
    name: String,
    update_name: bool,
    previous_id: u64,
    next_id: u64,
    update_order: bool,
) -> bool {
    if old.has_channel(guild_id, channel_id) {
        let g0 = old.guilds@[guild_id];
        let g1 = new.guilds@[guild_id];
        let c0 = old.channel(guild_id, channel_id);
        let c1 = new.channel(guild_id, channel_id);
        &&& new.only_guild_changed(&old, guild_id)
        &&& g1.name == g0.name
        &&& g1.picture == g0.picture
        &&& g1.members == g0.members
        &&& g1.channel_order@ == if update_order {
            reordered(g0.channel_order@, previous_id, next_id, channel_id)
        } else {
            g0.channel_order@
        }
        &&& g1.channels@.contains_key(channel_id)
        &&& g1.channels@ == g0.channels@.insert(channel_id, c1)
        &&& if update_name {
            channel_renamed(c1, c0, name)
        } else {
            c1 == c0
        }
    } else {
        new.unchanged(&old)
    }
}

/// What the creation of channel `channel_id` does.
pub open spec fn channel_created_effect(
    old: Client,
    new: Client,
    guild_id: u64,
    channel_id: u64,
    name: String,
    previous_id: u64,
    next_id: u64,
    is_category: bool,
) -> bool {
    if old.guilds@.contains_key(guild_id) {
        let g0 = old.guilds@[guild_id];
        let g1 = new.guilds@[guild_id];
        let c = g1.channels@[channel_id];
        &&& new.only_guild_changed(&old, guild_id)
        &&& g1.name == g0.name
        &&& g1.picture == g0.picture
        &&& g1.members == g0.members
        &&& g1.channel_order@ == reordered(g0.channel_order@, previous_id, next_id, channel_id)
        &&& g1.channels@.contains_key(channel_id)
        &&& g1.channels@ == g0.channels@.insert(channel_id, c)
        &&& c.name == name
        &&& c.is_category == is_category
        &&& c.messages@.len() == 0
        &&& c.looking_at_message == 0
        &&& !c.reached_top
        &&& !c.loading_messages_history
    } else {
        new.unchanged(&old)
    }
}

/// What the deletion of channel `channel_id` does.
pub open spec fn channel_deleted_effect(old: Client, new: Client, guild_id: u64, channel_id: u64) -> bool {
    if old.guilds@.contains_key(guild_id) {
        let g0 = old.guilds@[guild_id];
        let g1 = new.guilds@[guild_id];
        &&& new.only_guild_changed(&old, guild_id)
        &&& g1.name == g0.name
        &&& g1.picture == g0.picture
        &&& g1.members == g0.members
        &&& g1.channels@ == g0.channels@.remove(channel_id)
        &&& g1.channel_order@ == without_id(g0.channel_order@, channel_id)
    } else {
        new.unchanged(&old)
    }
}

/// What a change of guild `guild_id`'s member set to `members` does.
pub open spec fn guild_members_effect(old: Client, new: Client, guild_id: u64, members: Set<u64>) -> bool {
    if old.guilds@.contains_key(guild_id) {
        &&& new.only_guild_changed(&old, guild_id)
        &&& same_guild_but_members(new.guilds@[guild_id], old.guilds@[guild_id])
        &&& new.guilds@[guild_id].members@ == members
    } else {
        new.unchanged(&old)
    }
}

/// The profile of `user_id` before an update: the known one, or an empty one.
pub open spec fn profile_base(old: Client, user_id: u64) -> MemberView {
    if old.members@.contains_key(user_id) {
        old.members@[user_id]@
    } else {
        MemberView {
            username: Seq::empty(),
            status: UserStatus::Offline,
            avatar_url: None,
            typing_in_channel: None,
        }
    }
}

/// A fetch of the image `id` where there is one.
pub open spec fn fetch_if_some(id: Option<Seq<char>>) -> Seq<Request> {
    match id {
        Some(i) => image_fetches(seq![i]),
        None => Seq::empty(),
    }
}

/// What a profile update does: only the fields flagged for update change.
pub open spec fn profile_effect(
    old: Client,
    new: Client,
    post: Seq<Request>,
    user_id: u64,
    new_username: Seq<char>,
    update_username: bool,
    new_avatar: Option<Seq<char>>,
    update_avatar: bool,
    new_status: UserStatus,
    update_status: bool,
) -> bool {
    let base = profile_base(old, user_id);
    &&& new.guilds@ == old.guilds@
    &&& new.user_id == old.user_id
    &&& new.members@.contains_key(user_id)
    &&& new.members@ == old.members@.insert(user_id, new.members@[user_id])
    &&& new.members@[user_id]@ == MemberView {
        username: if update_username {
            new_username
        } else {
            base.username
        },
        status: if update_status {
            new_status
        } else {
            base.status
        },
        avatar_url: if update_avatar {
            new_avatar
        } else {
            base.avatar_url
        },
        typing_in_channel: base.typing_in_channel,
    }
    &&& post == if update_avatar {
        fetch_if_some(new_avatar)
    } else {
        Seq::empty()
    }
}

/// What a guild update does: only the fields flagged for update change, on
/// the known guild or on a new empty one.
pub open spec fn guild_edit_effect(
    old: Client,
    new: Client,
    post: Seq<Request>,
    guild_id: u64,
    name: Seq<char>,
    update_name: bool,
    picture: Option<Seq<char>>,
    update_picture: bool,
) -> bool {
    let known = old.guilds@.contains_key(guild_id);
    let g0 = old.guilds@[guild_id];
    let g1 = new.guilds@[guild_id];
    &&& new.only_guild_changed(&old, guild_id)
    &&& g1.name@ == if update_name {
        name
    } else if known {
        g0.name@
    } else {
        Seq::empty()
    }
    &&& opt_text(g1.picture) == if update_picture {
        picture
    } else if known {
        opt_text(g0.picture)
    } else {
        None
    }
    &&& if known {
        &&& g1.channels == g0.channels
        &&& g1.channel_order == g0.channel_order
        &&& g1.members == g0.members
    } else {
        &&& g1.channels@ == Map::<u64, Channel>::empty()
        &&& g1.channel_order@ == Seq::<u64>::empty()
        &&& g1.members@ == Set::<u64>::empty()
    }
    &&& post == if update_picture {
        fetch_if_some(picture)
    } else {
        Seq::empty()
    }
}

/// What a typing notice does: a known member's typing place and time are
/// set.
pub open spec fn typing_effect(
    old: Client,
    new: Client,
    guild_id: u64,
    channel_id: u64,
    user_id: u64,
    at: u64,
) -> bool {
    if old.members@.contains_key(user_id) {
        let m0 = old.members@[user_id];
        let m1 = new.members@[user_id];
        &&& new.guilds@ == old.guilds@
        &&& new.user_id == old.user_id
        &&& new.members@.contains_key(user_id)
        &&& new.members@ == old.members@.insert(user_id, m1)
        &&& m1.username == m0.username
        &&& m1.status == m0.status
        &&& m1.avatar_url == m0.avatar_url
        &&& m1.typing_in_channel == Some((guild_id, channel_id, at))
    } else {
        new.unchanged(&old)
    }
}

/// What applying `event` to `old` gives: the new state `new` and the
/// follow-up requests `post`, in order.
pub open spec fn event_effect(old: Client, new: Client, post: Seq<Request>, event: Event) -> bool {
    match event {
        Event::SentMessage { echo_id, guild_id, channel_id, message_id, content, overrides } => {
            sent_effect(
                old,
                new,
                post,
                echo_id,
                guild_id,
                channel_id,
                echoed_message(message_id, content, overrides),
            )
        },
        Event::DeletedMessage { guild_id, channel_id, message_id } => {
            &&& messages_effect(
                old,
                new,
                guild_id,
                channel_id,
                after_deleted(old.channel(guild_id, channel_id).messages_view(), message_id),
            )
            &&& post.len() == 0
        },
        Event::EditedMessage { guild_id, channel_id, message_id, content } => {
            &&& messages_effect(
                old,
                new,
                guild_id,
                channel_id,
                after_edited(old.channel(guild_id, channel_id).messages_view(), message_id, content@),
            )
            &&& post.len() == 0
        },
        Event::DeletedChannel { guild_id, channel_id } => {
            &&& channel_deleted_effect(old, new, guild_id, channel_id)
            &&& post.len() == 0
        },
        Event::EditedChannel {
            guild_id,
            channel_id,
            name,
            update_name,
            previous_id,
            next_id,
            update_order,
        } => {
            &&& channel_edit_effect(
                old,
                new,
                guild_id,
                channel_id,
                name,
                update_name,
                previous_id,
                next_id,
                update_order,
            )
            &&& post.len() == 0
        },
        Event::CreatedChannel { guild_id, channel_id, name, previous_id, next_id, is_category } => {
            &&& channel_created_effect(
                old,
                new,
                guild_id,
                channel_id,
                name,
                previous_id,
                next_id,
                is_category,
            )
            &&& post.len() == 0
        },
        Event::Typing { guild_id, channel_id, user_id, at } => {
            &&& typing_effect(old, new, guild_id, channel_id, user_id, at)
            &&& post.len() == 0
        },
        Event::JoinedMember { guild_id, member_id } => {
            if member_id == 0 {
                new.unchanged(&old) && post.len() == 0
            } else {
                &&& guild_members_effect(
                    old,
                    new,
                    guild_id,
                    old.guilds@[guild_id].members@.insert(member_id),
                )
                &&& post == if old.members@.contains_key(member_id) {
                    Seq::empty()
                } else {
                    seq![Request::FetchProfile(member_id)]
                }
            }
        },
        Event::LeftMember { guild_id, member_id } => {
            &&& guild_members_effect(
                old,
                new,
                guild_id,
                old.guilds@[guild_id].members@.remove(member_id),
            )
            &&& post.len() == 0
        },
        Event::ProfileUpdated {
            user_id,
            new_username,
            update_username,
            new_avatar,
            update_avatar,
            new_status,
            update_status,
        } => profile_effect(
            old,
            new,
            post,
            user_id,
            new_username@,
            update_username,
            opt_text(new_avatar),
            update_avatar,
            new_status,
            update_status,
        ),
        Event::GuildAddedToList { guild_id } => {
            let g = new.guilds@[guild_id];
            &&& new.only_guild_changed(&old, guild_id)
            &&& g.name@ == Seq::<char>::empty()
            &&& g.picture is None
            &&& g.channels@ == Map::<u64, Channel>::empty()
            &&& g.channel_order@ == Seq::<u64>::empty()
            &&& g.members@ == Set::<u64>::empty()
            &&& post == seq![Request::FetchGuildData(guild_id)]
        },
        Event::GuildRemovedFromList { guild_id } => {
            &&& new.guilds@ == old.guilds@.remove(guild_id)
            &&& new.members@ == old.members@
            &&& new.user_id == old.user_id
            &&& post.len() == 0
        },
        Event::DeletedGuild { guild_id } => {
            &&& new.guilds@ == old.guilds@.remove(guild_id)
            &&& new.members@ == old.members@
            &&& new.user_id == old.user_id
            &&& post.len() == 0
        },
        Event::EditedGuild { guild_id, name, update_name, picture, update_picture } => {
            guild_edit_effect(
                old,
                new,
                post,
                guild_id,
                name@,
                update_name,
                opt_text(picture),
                update_picture,
            )
        },
    }
}

/// The icons that the embeds of a list of messages show, message by message.
pub open spec fn page_icons(ms: Seq<MessageView>) -> Seq<Seq<char>>
    decreases ms.len(),
{
    if ms.len() == 0 {
        Seq::empty()
    } else {
        page_icons(ms.drop_last()) + content_icons(ms.last())
    }
}

/// The avatar overrides of a list of messages, message by message.
pub open spec fn page_avatars(ms: Seq<MessageView>) -> Seq<Seq<char>>
    decreases ms.len(),
{
    if ms.len() == 0 {
        Seq::empty()
    } else {
        page_avatars(ms.drop_last()) + avatar_override(ms.last())
    }
}

/// An event of the server, decoded. Kinds of server events that are not
/// listed here are not modelled: a decoder skips them.
#[derive(Debug)]
pub enum Event {
    SentMessage {
        echo_id: u64,
        guild_id: u64,
        channel_id: u64,
        message_id: u64,
        content: Content,
        overrides: Option<Overrides>,
    },
    DeletedMessage { guild_id: u64, channel_id: u64, message_id: u64 },
    EditedMessage { guild_id: u64, channel_id: u64, message_id: u64, content: String },
    DeletedChannel { guild_id: u64, channel_id: u64 },
    EditedChannel {
        guild_id: u64,
        channel_id: u64,
        name: String,
        update_name: bool,
        previous_id: u64,
        next_id: u64,
        update_order: bool,
    },
    CreatedChannel {
        guild_id: u64,
        channel_id: u64,
        name: String,
        previous_id: u64,
        next_id: u64,
        is_category: bool,
    },
    /// A user typing; `at` is the time of arrival in milliseconds.
    Typing { guild_id: u64, channel_id: u64, user_id: u64, at: u64 },
    /// A member joining a guild; a member id of 0 names no user and is
    /// ignored.
    JoinedMember { guild_id: u64, member_id: u64 },
    LeftMember { guild_id: u64, member_id: u64 },
    /// A profile change; `new_avatar` is the parsed avatar reference, none
    /// where the text named no content.
    ProfileUpdated {
        user_id: u64,
        new_username: String,
        update_username: bool,
        new_avatar: Option<String>,
        update_avatar: bool,
        new_status: UserStatus,
        update_status: bool,
    },
    GuildAddedToList { guild_id: u64 },
    GuildRemovedFromList { guild_id: u64 },
    DeletedGuild { guild_id: u64 },
    /// A guild change; `picture` is the parsed picture reference.
    EditedGuild {
        guild_id: u64,
        name: String,
        update_name: bool,
        picture: Option<String>,
        update_picture: bool,
    },
}

/// A stream of server events that the client subscribes to.
#[derive(Debug, Clone, Copy, PartialEq, Eq, Structural)]
pub enum EventSource {
    Guild(u64),
    Homeserver,
}

/// The guilds, channels, members and messages the client mirrors.
#[derive(Debug)]
pub struct Client {
    pub guilds: HashMap<u64, Guild>,
    pub members: HashMap<u64, Member>,
    pub user_id: Option<u64>,
}

/// `a` and `b` agree on everything but their channels.
pub open spec fn same_guild_but_channels(a: Guild, b: Guild) -> bool {
    &&& a.name == b.name
    &&& a.picture == b.picture
    &&& a.channel_order == b.channel_order
    &&& a.members == b.members
}

impl Client {
    /// Whether channel `channel_id` of guild `guild_id` is known.
    pub open spec fn has_channel(&self, guild_id: u64, channel_id: u64) -> bool {
        &&& self.guilds@.contains_key(guild_id)
        &&& self.guilds@[guild_id].channels@.contains_key(channel_id)
    }

    /// Channel `channel_id` of guild `guild_id`.
    pub open spec fn channel(&self, guild_id: u64, channel_id: u64) -> Channel {
        self.guilds@[guild_id].channels@[channel_id]
    }

    /// `self` is `old` with at most guild `guild_id` changed.
    pub open spec fn only_guild_changed(&self, old: &Client, guild_id: u64) -> bool {
        &&& self.guilds@.contains_key(guild_id)
        &&& self.guilds@ == old.guilds@.insert(guild_id, self.guilds@[guild_id])
        &&& self.members@ == old.members@
        &&& self.user_id == old.user_id
    }

    /// `self` is `old` with at most channel `channel_id` of guild `guild_id`
    /// changed.
    pub open spec fn only_channel_changed(&self, old: &Client, guild_id: u64, channel_id: u64) -> bool {
        &&& self.only_guild_changed(old, guild_id)
        &&& same_guild_but_channels(self.guilds@[guild_id], old.guilds@[guild_id])
        &&& self.has_channel(guild_id, channel_id)
        &&& self.guilds@[guild_id].channels@ == old.guilds@[guild_id].channels@.insert(
            channel_id,
            self.channel(guild_id, channel_id),
        )
    }

    /// `self` holds the same state as `old`.
    pub open spec fn unchanged(&self, old: &Client) -> bool {
        &&& self.guilds@ == old.guilds@
        &&& self.members@ == old.members@
        &&& self.user_id == old.user_id
    }

    /// A client that knows nothing yet, for the given user.
    pub fn new(user_id: Option<u64>) -> (r: Client)
        ensures
            r.guilds@ == Map::<u64, Guild>::empty(),
            r.members@ == Map::<u64, Member>::empty(),
            r.user_id == user_id,
    {
        Client { guilds: HashMap::new(), members: HashMap::new(), user_id }
    }

    /// Whether channel `channel_id` of guild `guild_id` is known.
    pub fn contains_channel(&self, guild_id: u64, channel_id: u64) -> (r: bool)
        ensures
            r == self.has_channel(guild_id, channel_id),
    {
        match self.guilds.get(&guild_id) {
            Some(g) => g.channels.contains_key(&channel_id),
            None => false,
        }
    }

    /// Guild `guild_id`.
    pub fn get_guild(&self, guild_id: u64) -> (r: Option<&Guild>)
        ensures
            match r {
                Some(g) => self.guilds@.contains_key(guild_id) && *g == self.guilds@[guild_id],
                None => !self.guilds@.contains_key(guild_id),
            },
    {
        self.guilds.get(&guild_id)
    }

    /// Channel `channel_id` of guild `guild_id`.
    pub fn get_channel(&self, guild_id: u64, channel_id: u64) -> (r: Option<&Channel>)
        ensures
            match r {
                Some(c) => self.has_channel(guild_id, channel_id) && *c == self.channel(
                    guild_id,
                    channel_id,
                ),
                None => !self.has_channel(guild_id, channel_id),
            },
    {
        match self.guilds.get(&guild_id) {
            Some(g) => g.channels.get(&channel_id),
            None => None,
        }
    }

    /// Member `user_id`.
    pub fn get_member(&self, user_id: u64) -> (r: Option<&Member>)
        ensures
            match r {
                Some(m) => self.members@.contains_key(user_id) && *m == self.members@[user_id],
                None => !self.members@.contains_key(user_id),
            },
    {
        self.members.get(&user_id)
    }

    /// Applies the echo of a sent message.
    fn on_message_sent(
        &mut self,
        post: &mut Vec<PostProcessEvent>,
        echo_id: u64,
        guild_id: u64,
        channel_id: u64,
        message_id: u64,
        content: Content,
        overrides: Option<Overrides>,
    )
        ensures
            sent_effect(
                *old(self),
                *final(self),
                requests_view(final(post)@).skip(requests_view(old(post)@).len() as int),
                echo_id,
                guild_id,
                channel_id,
                echoed_message(message_id, content, overrides),
            ),
            requests_view(final(post)@).take(requests_view(old(post)@).len() as int) == requests_view(old(post)@),
    {
        let ghost m_view = echoed_message(message_id, content, overrides);
        let ghost earlier = requests_view(post@);
        if !self.contains_channel(guild_id, channel_id) {
            assert(requests_view(post@).skip(earlier.len() as int) =~= Seq::<Request>::empty());
            assert(requests_view(post@).take(earlier.len() as int) =~= earlier);
            return;
        }
        let message = Message { id: MessageId::Ack(message_id), content, overrides };
        if let Some(o) = &message.overrides {
            if let Some(a) = &o.avatar_url {
                push_image_fetch(post, a.clone());
            }
        }
        message.post_process(post);
        let ghost first_post = requests_view(post@);
        assert(first_post =~= earlier + image_fetches(avatar_override(m_view) + content_icons(m_view)));
        let (guild, mut channel) = self.take_channel(guild_id, channel_id);
        apply_sent(&mut channel, echo_id, message);
        let ghost len = channel.messages@.len();
        let follow = follow_latest(&mut channel);
        if follow {
            post.push(PostProcessEvent::GoToFirstMsgOnChannel(channel_id));
        }
        self.put_channel(guild_id, channel_id, guild, channel);
        proof {
            assert(self.guilds@ =~= old(self).guilds@.insert(guild_id, self.guilds@[guild_id]));
            assert(self.guilds@[guild_id].channels@ =~= old(self).guilds@[guild_id].channels@.insert(
                channel_id,
                self.channel(guild_id, channel_id),
            ));
            assert(requests_view(post@).skip(earlier.len() as int) =~= first_post.skip(earlier.len() as int) + if follow {
                seq![Request::GoToFirstMsgOnChannel(channel_id)]
            } else {
                Seq::empty()
            });
            assert(first_post.skip(earlier.len() as int) =~= image_fetches(avatar_override(m_view) + content_icons(m_view)));
            assert(first_post.take(earlier.len() as int) =~= earlier);
            assert(requests_view(post@).take(earlier.len() as int) =~= first_post.take(earlier.len() as int));
        }
    }

    /// Applies the deletion of a message.
    fn on_message_deleted(&mut self, guild_id: u64, channel_id: u64, message_id: u64)
        ensures
            messages_effect(
                *old(self),
                *final(self),
                guild_id,
                channel_id,
                after_deleted(old(self).channel(guild_id, channel_id).messages_view(), message_id),
            ),
    {
        if !self.contains_channel(guild_id, channel_id) {
            return;
        }
        let (guild, mut channel) = self.take_channel(guild_id, channel_id);
        apply_deleted(&mut channel, message_id);
        self.put_channel(guild_id, channel_id, guild, channel);
        proof {
            assert(self.guilds@ =~= old(self).guilds@.insert(guild_id, self.guilds@[guild_id]));
            assert(self.guilds@[guild_id].channels@ =~= old(self).guilds@[guild_id].channels@.insert(
                channel_id,
                self.channel(guild_id, channel_id),
            ));
        }
    }

    fn on_message_edited(&mut self, guild_id: u64, channel_id: u64, message_id: u64, text: String)
        ensures
            messages_effect(
                *old(self),
                *final(self),
                guild_id,
                channel_id,
                after_edited(old(self).channel(guild_id, channel_id).messages_view(), message_id, text@),
            ),
    {
        if !self.contains_channel(guild_id, channel_id) {
            return;
        }
        let (guild, mut channel) = self.take_channel(guild_id, channel_id);
        apply_edited(&mut channel, message_id, text);
        self.put_channel(guild_id, channel_id, guild, channel);
        proof {
            assert(self.guilds@ =~= old(self).guilds@.insert(guild_id, self.guilds@[guild_id]));
            assert(self.guilds@[guild_id].channels@ =~= old(self).guilds@[guild_id].channels@.insert(
                channel_id,
                self.channel(guild_id, channel_id),
            ));
        }
    }

    fn on_channel_edited(
        &mut self,
        guild_id: u64,
        channel_id: u64,
        name: String,
        update_name: bool,
        previous_id: u64,
        next_id: u64,
        update_order: bool,
    )
        ensures
            channel_edit_effect(
                *old(self),
                *final(self),
                guild_id,
                channel_id,
                name,
                update_name,
                previous_id,
                next_id,
                update_order,
            ),
    {
        if !self.contains_channel(guild_id, channel_id) {
            return;
        }
        let (mut guild, mut channel) = self.take_channel(guild_id, channel_id);
        if update_name {
            channel.name = name;
        }
        if update_order {
            guild.update_channel_order(previous_id, next_id, channel_id);
        }
        self.put_channel(guild_id, channel_id, guild, channel);
        proof {
            assert(self.guilds@ =~= old(self).guilds@.insert(guild_id, self.guilds@[guild_id]));
            assert(self.guilds@[guild_id].channels@ =~= old(self).guilds@[guild_id].channels@.insert(
                channel_id,
                self.channel(guild_id, channel_id),
            ));
        }
    }

    fn on_channel_created(
        &mut self,
        guild_id: u64,
        channel_id: u64,
        name: String,
        previous_id: u64,
        next_id: u64,
        is_category: bool,
    )
        ensures
            channel_created_effect(
                *old(self),
                *final(self),
                guild_id,
                channel_id,
                name,
                previous_id,
                next_id,
                is_category,
            ),
    {
        let mut guild = match self.guilds.remove(&guild_id) {
            Some(g) => g,
            None => {
                assert(self.guilds@ =~= old(self).guilds@);
                return;
            },
        };
        guild.channels.insert(channel_id, Channel::new(name, is_category));
        guild.update_channel_order(previous_id, next_id, channel_id);
        self.guilds.insert(guild_id, guild);
        assert(self.guilds@ =~= old(self).guilds@.insert(guild_id, self.guilds@[guild_id]));
    }

    fn on_channel_deleted(&mut self, guild_id: u64, channel_id: u64)
        ensures
            channel_deleted_effect(*old(self), *final(self), guild_id, channel_id),
    {
        let mut guild = match self.guilds.remove(&guild_id) {
            Some(g) => g,
            None => {
                assert(self.guilds@ =~= old(self).guilds@);
                return;
            },
        };
        guild.remove_channel(channel_id);
        self.guilds.insert(guild_id, guild);
        assert(self.guilds@ =~= old(self).guilds@.insert(guild_id, self.guilds@[guild_id]));
    }

    fn on_typing(&mut self, guild_id: u64, channel_id: u64, user_id: u64, at: u64)
        ensures
            typing_effect(*old(self), *final(self), guild_id, channel_id, user_id, at),
    {
        let mut member = match self.members.remove(&user_id) {
            Some(m) => m,
            None => {
                assert(self.members@ =~= old(self).members@);
                return;
            },
        };
        member.typing_in_channel = Some((guild_id, channel_id, at));
        self.members.insert(user_id, member);
        assert(self.members@ =~= old(self).members@.insert(user_id, self.members@[user_id]));
    }

    fn set_guild_members(&mut self, guild_id: u64, member_id: u64, joined: bool)
        ensures
            guild_members_effect(
                *old(self),
                *final(self),
                guild_id,
                if joined {
                    old(self).guilds@[guild_id].members@.insert(member_id)
                } else {
                    old(self).guilds@[guild_id].members@.remove(member_id)
                },
            ),
    {
        let mut guild = match self.guilds.remove(&guild_id) {
            Some(g) => g,
            None => {
                assert(self.guilds@ =~= old(self).guilds@);
                return;
            },
        };
        if joined {
            guild.members.insert(member_id);
        } else {
            guild.members.remove(&member_id);
        }
        self.guilds.insert(guild_id, guild);
        assert(self.guilds@ =~= old(self).guilds@.insert(guild_id, self.guilds@[guild_id]));
    }

    fn on_profile_updated(
        &mut self,
        post: &mut Vec<PostProcessEvent>,
        user_id: u64,
        new_username: String,
        update_username: bool,
        new_avatar: Option<String>,
        update_avatar: bool,
        new_status: UserStatus,
        update_status: bool,
    )
        requires
            old(post)@.len() == 0,
        ensures
            profile_effect(
                *old(self),
                *final(self),
                requests_view(final(post)@),
                user_id,
                new_username@,
                update_username,
                opt_text(new_avatar),
                update_avatar,
                new_status,
                update_status,
            ),
    {
        let ghost avatar = opt_text(new_avatar);
        let mut member = match self.members.remove(&user_id) {
            Some(m) => m,
            None => Member::new(),
        };
        if update_username {
            member.username = new_username;
        }
        if update_status {
            member.status = new_status;
        }
        if update_avatar {
            if let Some(a) = &new_avatar {
                push_image_fetch(post, a.clone());
            }
            member.avatar_url = new_avatar;
        }
        self.members.insert(user_id, member);
        assert(self.members@ =~= old(self).members@.insert(user_id, self.members@[user_id]));
        assert(requests_view(post@) =~= if update_avatar {
            fetch_if_some(avatar)
        } else {
            Seq::empty()
        });
    }

    fn on_guild_edited(
        &mut self,
        post: &mut Vec<PostProcessEvent>,
        guild_id: u64,
        name: String,
        update_name: bool,
        picture: Option<String>,
        update_picture: bool,
    )
        requires
            old(post)@.len() == 0,
        ensures
            guild_edit_effect(
                *old(self),
                *final(self),
                requests_view(final(post)@),
                guild_id,
                name@,
                update_name,
                opt_text(picture),
                update_picture,
            ),
    {
        let ghost pic = opt_text(picture);
        let mut guild = match self.guilds.remove(&guild_id) {
            Some(g) => g,
            None => Guild::new(),
        };
        if update_name {
            guild.name = name;
        }
        if update_picture {
            if let Some(p) = &picture {
                push_image_fetch(post, p.clone());
            }
            guild.picture = picture;
        }
        self.guilds.insert(guild_id, guild);
        assert(self.guilds@ =~= old(self).guilds@.insert(guild_id, self.guilds@[guild_id]));
        assert(requests_view(post@) =~= if update_picture {
            fetch_if_some(pic)
        } else {
            Seq::empty()
        });
    }

    /// Applies one event of the server to the state, and returns the
    /// follow-up requests it asks of the caller, in order. Events that name
    /// a guild, channel or member the client does not know change nothing.
    pub fn process_event(&mut self, event: Event) -> (r: Vec<PostProcessEvent>)
        ensures
            event_effect(*old(self), *final(self), requests_view(r@), event),
            old(self).messages_unique() ==> final(self).messages_unique(),
    {
        let ghost applied = event;
        let mut post: Vec<PostProcessEvent> = Vec::new();
        match event {
            Event::SentMessage { echo_id, guild_id, channel_id, message_id, content, overrides } => {
                self.on_message_sent(
                    &mut post,
                    echo_id,
                    guild_id,
                    channel_id,
                    message_id,
                    content,
                    overrides,
                );
                assert(requests_view(post@).skip(0) =~= requests_view(post@));
            },
            Event::DeletedMessage { guild_id, channel_id, message_id } => {
                self.on_message_deleted(guild_id, channel_id, message_id);
            },
            Event::EditedMessage { guild_id, channel_id, message_id, content } => {
                self.on_message_edited(guild_id, channel_id, message_id, content);
            },
            Event::DeletedChannel { guild_id, channel_id } => {
                self.on_channel_deleted(guild_id, channel_id);
            },
            Event::EditedChannel {
                guild_id,
                channel_id,
                name,
                update_name,
                previous_id,
                next_id,
                update_order,
            } => {
                self.on_channel_edited(
                    guild_id,
                    channel_id,
                    name,
                    update_name,
                    previous_id,
                    next_id,
                    update_order,
                );
            },
            Event::CreatedChannel { guild_id, channel_id, name, previous_id, next_id, is_category } => {
                self.on_channel_created(guild_id, channel_id, name, previous_id, next_id, is_category);
            },
            Event::Typing { guild_id, channel_id, user_id, at } => {
                self.on_typing(guild_id, channel_id, user_id, at);
            },
            Event::JoinedMember { guild_id, member_id } => {
                if member_id == 0 {
                    return post;
                }
                self.set_guild_members(guild_id, member_id, true);
                if !self.members.contains_key(&member_id) {
                    post.push(PostProcessEvent::FetchProfile(member_id));
                }
                assert(requests_view(post@) =~= if old(self).members@.contains_key(member_id) {
                    Seq::empty()
                } else {
                    seq![Request::FetchProfile(member_id)]
                });
            },
            Event::LeftMember { guild_id, member_id } => {
                self.set_guild_members(guild_id, member_id, false);
            },
            Event::ProfileUpdated {
                user_id,
                new_username,
                update_username,
                new_avatar,
                update_avatar,
                new_status,
                update_status,
            } => {
                self.on_profile_updated(
                    &mut post,
                    user_id,
                    new_username,
                    update_username,
                    new_avatar,
                    update_avatar,
                    new_status,
                    update_status,
                );
            },
            Event::GuildAddedToList { guild_id } => {
                self.guilds.insert(guild_id, Guild::new());
                post.push(PostProcessEvent::FetchGuildData(guild_id));
                assert(self.guilds@ =~= old(self).guilds@.insert(guild_id, self.guilds@[guild_id]));
                assert(requests_view(post@) =~= seq![Request::FetchGuildData(guild_id)]);
            },
            Event::GuildRemovedFromList { guild_id } => {
                self.guilds.remove(&guild_id);
            },
            Event::DeletedGuild { guild_id } => {
                self.guilds.remove(&guild_id);
            },
            Event::EditedGuild { guild_id, name, update_name, picture, update_picture } => {
                self.on_guild_edited(&mut post, guild_id, name, update_name, picture, update_picture);
            },
        }
        proof {
            if old(self).messages_unique() {
                lemma_event_keeps_ids_unique(*old(self), *self, requests_view(post@), applied);
            }
        }
        post
    }

    /// Puts a page of older messages (oldest first) before a channel's
    /// messages, records whether it was the oldest page, and asks for the
    /// icons and avatar overrides the page shows.
    pub fn process_get_message_history_response(
        &mut self,
        guild_id: u64,
        channel_id: u64,
        messages: Vec<Message>,
        reached_top: bool,
    ) -> (r: Vec<PostProcessEvent>)
        ensures
            requests_view(r@) == image_fetches(page_icons(messages_view(messages@))) + image_fetches(
                page_avatars(messages_view(messages@)),
            ),
            old(self).has_channel(guild_id, channel_id) ==> {
                let before = old(self).channel(guild_id, channel_id);
                let after = final(self).channel(guild_id, channel_id);
                &&& final(self).only_channel_changed(old(self), guild_id, channel_id)
                &&& after.messages_view() == messages_view(messages@) + before.messages_view()
                &&& after.reached_top == reached_top
                &&& after.name == before.name
                &&& after.is_category == before.is_category
                &&& after.looking_at_message == before.looking_at_message
                &&& after.loading_messages_history == before.loading_messages_history
            },
            !old(self).has_channel(guild_id, channel_id) ==> final(self).unchanged(old(self)),
    {
        let mut post: Vec<PostProcessEvent> = Vec::new();
        let ghost page = messages_view(messages@);
        let mut i: usize = 0;
        assert(page.take(0) =~= Seq::<MessageView>::empty());
        assert(requests_view(post@) =~= image_fetches(page_icons(page.take(0))));
        while i < messages.len()
            invariant
                i <= messages@.len(),
                page == messages_view(messages@),
                requests_view(post@) == image_fetches(page_icons(page.take(i as int))),
            decreases messages@.len() - i,
        {
            messages[i].post_process(&mut post);
            proof {
                assert(page.take(i + 1).drop_last() =~= page.take(i as int));
                assert(image_fetches(page_icons(page.take(i + 1))) =~= image_fetches(
                    page_icons(page.take(i as int)),
                ) + image_fetches(content_icons(page[i as int])));
            }
            i = i + 1;
        }
        assert(page.take(page.len() as int) =~= page);
        let ghost icons = requests_view(post@);
        let mut j: usize = 0;
        assert(icons =~= icons + image_fetches(page_avatars(page.take(0))));
        while j < messages.len()
            invariant
                j <= messages@.len(),
                page == messages_view(messages@),
                requests_view(post@) == icons + image_fetches(page_avatars(page.take(j as int))),
            decreases messages@.len() - j,
        {
            if let Some(o) = &messages[j].overrides {
                if let Some(a) = &o.avatar_url {
                    push_image_fetch(&mut post, a.clone());
                }
            }
            proof {
                assert(page.take(j + 1).drop_last() =~= page.take(j as int));
                assert(image_fetches(page_avatars(page.take(j + 1))) =~= image_fetches(
                    page_avatars(page.take(j as int)),
                ) + image_fetches(avatar_override(page[j as int])));
            }
            j = j + 1;
        }
        if self.contains_channel(guild_id, channel_id) {
            let (guild, mut channel) = self.take_channel(guild_id, channel_id);
            let ghost s = channel.messages@;
            let mut merged = messages;
            merged.append(&mut channel.messages);
            channel.messages = merged;
            channel.reached_top = reached_top;
            proof {
                assert(messages_view(channel.messages@) =~= page + messages_view(s));
            }
            self.put_channel(guild_id, channel_id, guild, channel);
            proof {
                assert(self.guilds@ =~= old(self).guilds@.insert(guild_id, self.guilds@[guild_id]));
                assert(self.guilds@[guild_id].channels@ =~= old(self).guilds@[guild_id].channels@.insert(
                    channel_id,
                    self.channel(guild_id, channel_id),
                ));
            }
        }
        post
    }

    /// The event streams to subscribe to: one for each known guild, in no
    /// particular order, then the homeserver's.
    pub fn subscribe_to(&self) -> (r: Vec<EventSource>)
        ensures
            r@.len() == self.guilds@.dom().len() + 1,
            r@.last() == EventSource::Homeserver,
            forall|g: u64| #[trigger]
                r@.contains(EventSource::Guild(g)) <==> self.guilds@.contains_key(g),
    {
        let mut subs: Vec<EventSource> = Vec::new();
        let ghost ks = vstd::std_specs::iter::IteratorSpec::remaining(
            &vstd::std_specs::hash::spec_keys_iter(&self.guilds),
        );
        for g in it: self.guilds.keys()
            invariant
                it.seq() == ks,
                subs@ == it.seq().take(it.index() as int).map_values(
                    |k: &u64| EventSource::Guild(*k),
                ),
        {
            proof {
                assert(it.seq().take(it.index() + 1) =~= it.seq().take(it.index() as int).push(
                    it.seq()[it.index() as int],
                ));
            }
            subs.push(EventSource::Guild(*g));
            assert(subs@ =~= it.seq().take(it.index() + 1).map_values(
                |k: &u64| EventSource::Guild(*k),
            ));
        }
        let ghost keys = subs@;
        proof {
            assert(ks.unref().to_set() == self.guilds@.dom());
            assert(keys.len() == ks.len());
        }
        subs.push(EventSource::Homeserver);
        proof {
            assert forall|g: u64| #[trigger]
                subs@.contains(EventSource::Guild(g)) <==> self.guilds@.contains_key(g) by {
                if self.guilds@.contains_key(g) {
                    assert(ks.unref().to_set().contains(g));
                    let i = choose|i: int| 0 <= i < ks.unref().len() && ks.unref()[i] == g;
                    assert(subs@[i] == EventSource::Guild(g));
                }
                if subs@.contains(EventSource::Guild(g)) {
                    let i = choose|i: int| 0 <= i < subs@.len() && subs@[i] == EventSource::Guild(g);
                    assert(i < keys.len());
                    assert(ks.unref()[i] == g);
                    assert(ks.unref().to_set().contains(g));
                }
            }
        }
        subs
    }

    /// Takes channel `channel_id` out of guild `guild_id`, which the caller
    /// puts back with `put_channel`.
    pub(crate) fn take_channel(&mut self, guild_id: u64, channel_id: u64) -> (r: (Guild, Channel))
        requires
            old(self).has_channel(guild_id, channel_id),
        ensures
            r.1 == old(self).channel(guild_id, channel_id),
            same_guild_but_channels(r.0, old(self).guilds@[guild_id]),
            r.0.channels@ == old(self).guilds@[guild_id].channels@.remove(channel_id),
            final(self).guilds@ == old(self).guilds@.remove(guild_id),
            final(self).members == old(self).members,
            final(self).user_id == old(self).user_id,
    {
        let mut guild = self.guilds.remove(&guild_id).unwrap();
        let channel = guild.channels.remove(&channel_id).unwrap();
        (guild, channel)
    }

    /// Puts a channel taken with `take_channel` back.
    pub(crate) fn put_channel(&mut self, guild_id: u64, channel_id: u64, guild: Guild, channel: Channel)
        ensures
            final(self).guilds@.contains_key(guild_id),
            final(self).guilds@ == old(self).guilds@.insert(guild_id, final(self).guilds@[guild_id]),
            same_guild_but_channels(final(self).guilds@[guild_id], guild),
            final(self).guilds@[guild_id].channels@ == guild.channels@.insert(channel_id, channel),
            final(self).members == old(self).members,
            final(self).user_id == old(self).user_id,
    {
        let mut guild = guild;
        guild.channels.insert(channel_id, channel);
        self.guilds.insert(guild_id, guild);
    }
}

} // verus!
