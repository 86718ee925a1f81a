use crust::client::{Client, Event, EventSource};
use crust::outbox::{
    on_delete_result, on_edit_result, on_send_result, ActionError, SendOutcome, SendRequest,
    RETRY_STEP_SECS,
};
use crust::media::ContentType;
use crust::member::UserStatus;
use crust::message::{
    Content, Embed, EmbedHeading, Message, MessageId, Overrides, PostProcessEvent,
};

const G: u64 = 10;
const C: u64 = 20;

fn text(m: &Message) -> String {
    match &m.content {
        Content::Text(t) => t.clone(),
        Content::Embeds(_) => panic!("expected text"),
    }
}

fn ids(client: &Client, g: u64, c: u64) -> Vec<MessageId> {
    client.get_channel(g, c).unwrap().messages.iter().map(|m| m.id).collect()
}

fn text_msg(id: MessageId, t: &str) -> Message {
    Message { id, content: Content::Text(t.to_string()), overrides: None }
}

fn sent(echo_id: u64, message_id: u64, t: &str) -> Event {
    Event::SentMessage {
        echo_id,
        guild_id: G,
        channel_id: C,
        message_id,
        content: Content::Text(t.to_string()),
        overrides: None,
    }
}

fn with_channel() -> Client {
    let mut client = Client::new(Some(1));
    client.process_event(Event::GuildAddedToList { guild_id: G });
    client.process_event(Event::CreatedChannel {
        guild_id: G,
        channel_id: C,
        name: "general".to_string(),
        previous_id: 0,
        next_id: 0,
        is_category: false,
    });
    client
}

#[test]
fn send_then_echo_example() {
    let mut client = with_channel();
    let req = client.send_msg_cmd(G, C, 0, text_msg(MessageId::Unack(7), "hello"));
    assert!(req.is_some());
    let ch = client.get_channel(G, C).unwrap();
    assert_eq!(ch.messages.len(), 1);
    assert_eq!(ch.messages[0].id, MessageId::Unack(7));
    assert_eq!(text(&ch.messages[0]), "hello");

    client.process_event(sent(7, 42, "hello"));
    let ch = client.get_channel(G, C).unwrap();
    assert_eq!(ch.messages.len(), 1);
    assert_eq!(ch.messages[0].id, MessageId::Ack(42));
    assert_eq!(text(&ch.messages[0]), "hello");
}

#[test]
fn send_success_outcome_acknowledges_placeholder() {
    let mut client = with_channel();
    let req = client.send_msg_cmd(G, C, 0, text_msg(MessageId::Unack(3), "hi")).unwrap();
    let outcome = on_send_result(req, Some(99));
    let event = match outcome {
        SendOutcome::Sent(e) => e,
        SendOutcome::Retry(_) => panic!("expected success"),
    };
    client.process_event(event);
    assert_eq!(ids(&client, G, C), vec![MessageId::Ack(99)]);
    // The server's own echo arriving later replaces, not duplicates.
    client.process_event(sent(3, 99, "hi"));
    assert_eq!(ids(&client, G, C), vec![MessageId::Ack(99)]);
}

#[test]
fn retries_back_off_and_insert_placeholder_once() {
    let mut client = with_channel();
    let first = client.send_msg_cmd(G, C, 0, text_msg(MessageId::Unack(5), "x")).unwrap();
    assert_eq!(first.retry_after, 0);
    let mut req = first;
    for attempt in 1..=3u64 {
        let retry = match on_send_result(req, None) {
            SendOutcome::Retry(q) => q,
            SendOutcome::Sent(_) => panic!("expected retry"),
        };
        assert_eq!(retry.retry_after, attempt * RETRY_STEP_SECS);
        assert_eq!(retry.message.id, MessageId::Unack(5));
        req = client
            .send_msg_cmd(retry.guild_id, retry.channel_id, retry.retry_after, retry.message)
            .unwrap();
        assert_eq!(ids(&client, G, C), vec![MessageId::Unack(5)]);
    }
}

#[test]
fn send_to_unknown_channel_does_nothing() {
    let mut client = with_channel();
    assert!(client.send_msg_cmd(G, 999, 0, text_msg(MessageId::Unack(1), "x")).is_none());
    assert!(client.send_msg_cmd(999, C, 0, text_msg(MessageId::Unack(1), "x")).is_none());
    assert_eq!(ids(&client, G, C), vec![]);
}

#[test]
fn echo_without_placeholder_appends_or_replaces() {
    let mut client = with_channel();
    client.process_event(sent(1, 100, "a"));
    client.process_event(sent(2, 101, "b"));
    assert_eq!(ids(&client, G, C), vec![MessageId::Ack(100), MessageId::Ack(101)]);
    client.process_event(sent(3, 100, "a2"));
    assert_eq!(ids(&client, G, C), vec![MessageId::Ack(100), MessageId::Ack(101)]);
    assert_eq!(text(&client.get_channel(G, C).unwrap().messages[0]), "a2");
}

#[test]
fn echo_drops_duplicate_of_replaced_placeholder() {
    let mut client = with_channel();
    client.process_event(sent(1, 100, "a"));
    client.send_msg_cmd(G, C, 0, text_msg(MessageId::Unack(9), "b")).unwrap();
    client.process_event(sent(9, 100, "b"));
    assert_eq!(ids(&client, G, C), vec![MessageId::Ack(100)]);
}

#[test]
fn echo_scrolls_viewer_at_the_end() {
    let mut client = with_channel();
    let post = client.process_event(sent(1, 100, "a"));
    assert_eq!(post.len(), 1);
    assert!(matches!(post[0], PostProcessEvent::GoToFirstMsgOnChannel(C)));
    assert_eq!(client.get_channel(G, C).unwrap().looking_at_message, 0);
    client.process_event(sent(2, 101, "b"));
    assert_eq!(client.get_channel(G, C).unwrap().looking_at_message, 1);
}

#[test]
fn echo_asks_for_avatar_and_embed_icons() {
    let mut client = with_channel();
    let embed = Embed {
        title: "t".to_string(),
        body: "b".to_string(),
        header: Some(EmbedHeading { text: "h".to_string(), icon: Some("hicon".to_string()) }),
        footer: Some(EmbedHeading { text: "f".to_string(), icon: Some("ficon".to_string()) }),
    };
    let post = client.process_event(Event::SentMessage {
        echo_id: 1,
        guild_id: G,
        channel_id: C,
        message_id: 100,
        content: Content::Embeds(vec![embed]),
        overrides: Some(Overrides { name: None, avatar_url: Some("av".to_string()) }),
    });
    let fetched: Vec<String> = post
        .iter()
        .filter_map(|p| match p {
            PostProcessEvent::FetchThumbnail(a) => {
                assert_eq!(a.kind, ContentType::Image);
                Some(a.id.clone())
            }
            _ => None,
        })
        .collect();
    assert_eq!(fetched, vec!["av".to_string(), "hicon".to_string(), "ficon".to_string()]);
    assert!(matches!(post[3], PostProcessEvent::GoToFirstMsgOnChannel(C)));
}

#[test]
fn echo_for_unknown_channel_is_ignored() {
    let mut client = with_channel();
    let post = client.process_event(Event::SentMessage {
        echo_id: 1,
        guild_id: G,
        channel_id: 77,
        message_id: 5,
        content: Content::Text("x".to_string()),
        overrides: None,
    });
    assert!(post.is_empty());
    assert_eq!(ids(&client, G, C), vec![]);
}

#[test]
fn delete_is_idempotent() {
    let mut client = with_channel();
    client.process_event(sent(1, 100, "a"));
    client.process_event(sent(2, 101, "b"));
    let del = || Event::DeletedMessage { guild_id: G, channel_id: C, message_id: 100 };
    client.process_event(del());
    assert_eq!(ids(&client, G, C), vec![MessageId::Ack(101)]);
    client.process_event(del());
    assert_eq!(ids(&client, G, C), vec![MessageId::Ack(101)]);
    client.process_event(Event::DeletedMessage { guild_id: G, channel_id: C, message_id: 555 });
    assert_eq!(ids(&client, G, C), vec![MessageId::Ack(101)]);
}

#[test]
fn delete_leaves_pending_copies() {
    let mut client = with_channel();
    client.send_msg_cmd(G, C, 0, text_msg(MessageId::Unack(100), "p")).unwrap();
    client.process_event(Event::DeletedMessage { guild_id: G, channel_id: C, message_id: 100 });
    assert_eq!(ids(&client, G, C), vec![MessageId::Unack(100)]);
}

#[test]
fn edit_replaces_text_of_acknowledged_message() {
    let mut client = with_channel();
    client.process_event(sent(1, 100, "a"));
    client.process_event(Event::EditedMessage {
        guild_id: G,
        channel_id: C,
        message_id: 100,
        content: "edited".to_string(),
    });
    assert_eq!(text(&client.get_channel(G, C).unwrap().messages[0]), "edited");
    client.process_event(Event::EditedMessage {
        guild_id: G,
        channel_id: C,
        message_id: 999,
        content: "nope".to_string(),
    });
    assert_eq!(text(&client.get_channel(G, C).unwrap().messages[0]), "edited");
}

#[test]
fn ids_stay_unique_over_mixed_events() {
    let mut client = with_channel();
    client.send_msg_cmd(G, C, 0, text_msg(MessageId::Unack(1), "a")).unwrap();
    client.process_event(sent(1, 100, "a"));
    client.process_event(sent(1, 100, "a"));
    client.send_msg_cmd(G, C, 0, text_msg(MessageId::Unack(2), "b")).unwrap();
    client.process_event(sent(50, 100, "a"));
    client.process_event(sent(2, 100, "b"));
    let v = ids(&client, G, C);
    for i in 0..v.len() {
        for j in i + 1..v.len() {
            assert_ne!(v[i], v[j]);
        }
    }
    assert_eq!(v, vec![MessageId::Ack(100)]);
}

#[test]
fn history_page_goes_first() {
    let mut client = with_channel();
    client.process_event(sent(1, 100, "e1"));
    client.process_event(sent(2, 101, "e2"));
    let page = vec![
        text_msg(MessageId::Ack(10), "m1"),
        Message {
            id: MessageId::Ack(11),
            content: Content::Text("m2".to_string()),
            overrides: Some(Overrides { name: Some("bridge".to_string()), avatar_url: Some("av".to_string()) }),
        },
    ];
    let post = client.process_get_message_history_response(G, C, page, true);
    assert_eq!(
        ids(&client, G, C),
        vec![MessageId::Ack(10), MessageId::Ack(11), MessageId::Ack(100), MessageId::Ack(101)]
    );
    assert!(client.get_channel(G, C).unwrap().reached_top);
    assert_eq!(post.len(), 1);
    assert!(matches!(&post[0], PostProcessEvent::FetchThumbnail(a) if a.id == "av"));
    client.process_get_message_history_response(G, C, vec![], false);
    assert!(!client.get_channel(G, C).unwrap().reached_top);
}

#[test]
fn history_for_unknown_channel_changes_nothing() {
    let mut client = with_channel();
    let post = client.process_get_message_history_response(G, 5, vec![text_msg(MessageId::Ack(1), "x")], true);
    assert!(post.is_empty());
    assert_eq!(ids(&client, G, C), vec![]);
    assert!(!client.get_channel(G, C).unwrap().reached_top);
}

fn profile(user_id: u64, name: &str, update_username: bool, avatar: Option<&str>, update_avatar: bool) -> Event {
    Event::ProfileUpdated {
        user_id,
        new_username: name.to_string(),
        update_username,
        new_avatar: avatar.map(|a| a.to_string()),
        update_avatar,
        new_status: UserStatus::Online,
        update_status: false,
    }
}

#[test]
fn profile_update_respects_flags() {
    let mut client = with_channel();
    client.process_event(profile(5, "alice", true, None, false));
    assert_eq!(client.get_member(5).unwrap().username, "alice");
    client.process_event(profile(5, "mallory", false, None, false));
    assert_eq!(client.get_member(5).unwrap().username, "alice");
    assert_eq!(client.get_member(5).unwrap().status, UserStatus::Offline);
    let post = client.process_event(profile(5, "ignored", false, Some("pic"), true));
    assert_eq!(client.get_member(5).unwrap().username, "alice");
    assert_eq!(client.get_member(5).unwrap().avatar_url, Some("pic".to_string()));
    assert_eq!(post.len(), 1);
    assert!(matches!(&post[0], PostProcessEvent::FetchThumbnail(a) if a.id == "pic" && a.kind == ContentType::Image));
    let post = client.process_event(profile(5, "x", false, None, true));
    assert_eq!(client.get_member(5).unwrap().avatar_url, None);
    assert!(post.is_empty());
}

#[test]
fn profile_update_creates_unknown_member() {
    let mut client = with_channel();
    client.process_event(profile(8, "zed", false, None, false));
    let m = client.get_member(8).unwrap();
    assert_eq!(m.username, "");
    assert_eq!(m.status, UserStatus::Offline);
}

#[test]
fn member_join_asks_for_unknown_profile() {
    let mut client = with_channel();
    let post = client.process_event(Event::JoinedMember { guild_id: G, member_id: 5 });
    assert!(client.get_guild(G).unwrap().members.contains(&5));
    assert_eq!(post.len(), 1);
    assert!(matches!(post[0], PostProcessEvent::FetchProfile(5)));
    client.process_event(profile(5, "alice", true, None, false));
    let post = client.process_event(Event::JoinedMember { guild_id: G, member_id: 5 });
    assert!(post.is_empty());
    let post = client.process_event(Event::JoinedMember { guild_id: G, member_id: 0 });
    assert!(post.is_empty());
    assert!(!client.get_guild(G).unwrap().members.contains(&0));
    client.process_event(Event::LeftMember { guild_id: G, member_id: 5 });
    assert!(!client.get_guild(G).unwrap().members.contains(&5));
}

#[test]
fn typing_marks_known_member() {
    let mut client = with_channel();
    client.process_event(Event::Typing { guild_id: G, channel_id: C, user_id: 5, at: 1000 });
    assert!(client.get_member(5).is_none());
    client.process_event(profile(5, "alice", true, None, false));
    client.process_event(Event::Typing { guild_id: G, channel_id: C, user_id: 5, at: 1000 });
    assert_eq!(client.get_member(5).unwrap().typing_in_channel, Some((G, C, 1000)));
}

#[test]
fn guild_lifecycle() {
    let mut client = Client::new(None);
    let post = client.process_event(Event::GuildAddedToList { guild_id: 3 });
    assert!(matches!(post[0], PostProcessEvent::FetchGuildData(3)));
    let post = client.process_event(Event::EditedGuild {
        guild_id: 3,
        name: "Guild".to_string(),
        update_name: true,
        picture: Some("gp".to_string()),
        update_picture: true,
    });
    assert_eq!(client.get_guild(3).unwrap().name, "Guild");
    assert_eq!(client.get_guild(3).unwrap().picture, Some("gp".to_string()));
    assert!(matches!(&post[0], PostProcessEvent::FetchThumbnail(a) if a.id == "gp"));
    client.process_event(Event::EditedGuild {
        guild_id: 3,
        name: "Other".to_string(),
        update_name: false,
        picture: None,
        update_picture: false,
    });
    assert_eq!(client.get_guild(3).unwrap().name, "Guild");
    client.process_event(Event::GuildRemovedFromList { guild_id: 3 });
    assert!(client.get_guild(3).is_none());
    client.process_event(Event::GuildAddedToList { guild_id: 4 });
    client.process_event(Event::DeletedGuild { guild_id: 4 });
    assert!(client.get_guild(4).is_none());
}

fn create(client: &mut Client, id: u64, prev: u64, next: u64) {
    client.process_event(Event::CreatedChannel {
        guild_id: G,
        channel_id: id,
        name: format!("c{}", id),
        previous_id: prev,
        next_id: next,
        is_category: false,
    });
}

#[test]
fn channel_order_uses_neighbours() {
    let mut client = with_channel();
    create(&mut client, 21, C, 0);
    create(&mut client, 22, 0, C);
    create(&mut client, 23, C, 21);
    assert_eq!(client.get_guild(G).unwrap().channel_order, vec![22, C, 23, 21]);
    client.process_event(Event::EditedChannel {
        guild_id: G,
        channel_id: 22,
        name: "renamed".to_string(),
        update_name: true,
        previous_id: 21,
        next_id: 0,
        update_order: true,
    });
    assert_eq!(client.get_guild(G).unwrap().channel_order, vec![C, 23, 21, 22]);
    assert_eq!(client.get_channel(G, 22).unwrap().name, "renamed");
    client.process_event(Event::EditedChannel {
        guild_id: G,
        channel_id: 22,
        name: "kept".to_string(),
        update_name: false,
        previous_id: 0,
        next_id: 0,
        update_order: false,
    });
    assert_eq!(client.get_channel(G, 22).unwrap().name, "renamed");
    client.process_event(Event::DeletedChannel { guild_id: G, channel_id: 23 });
    assert_eq!(client.get_guild(G).unwrap().channel_order, vec![C, 21, 22]);
    assert!(client.get_channel(G, 23).is_none());
}

#[test]
fn edit_and_delete_failures_are_reported() {
    let client = with_channel();
    let edit = client.edit_msg_cmd(G, C, 100, "new".to_string());
    assert_eq!(edit.new_content, "new");
    assert_eq!(on_edit_result(&edit, true), Ok(()));
    assert_eq!(
        on_edit_result(&edit, false),
        Err(ActionError::EditFailed { guild_id: G, channel_id: C, message_id: 100 })
    );
    let del = client.delete_msg_cmd(G, C, 100);
    assert_eq!(on_delete_result(&del, true), Ok(()));
    assert_eq!(
        on_delete_result(&del, false),
        Err(ActionError::DeleteFailed { guild_id: G, channel_id: C, message_id: 100 })
    );
}

#[test]
fn message_id_accessors() {
    assert_eq!(MessageId::Unack(4).transaction_id(), Some(4));
    assert_eq!(MessageId::Ack(4).transaction_id(), None);
    assert_eq!(MessageId::Ack(4).id(), Some(4));
    assert_eq!(MessageId::Unack(4).id(), None);
    let req = SendRequest { guild_id: 1, channel_id: 2, retry_after: 0, message: text_msg(MessageId::Unack(4), "x") };
    assert!(matches!(on_send_result(req, Some(8)), SendOutcome::Sent(Event::SentMessage { echo_id: 4, message_id: 8, .. })));
}

#[test]
fn subscriptions_cover_guilds_then_homeserver() {
    let mut client = Client::new(None);
    assert_eq!(client.subscribe_to(), vec![EventSource::Homeserver]);
    client.process_event(Event::GuildAddedToList { guild_id: 1 });
    client.process_event(Event::GuildAddedToList { guild_id: 2 });
    let subs = client.subscribe_to();
    assert_eq!(subs.len(), 3);
    assert_eq!(subs[2], EventSource::Homeserver);
    assert!(subs.contains(&EventSource::Guild(1)));
    assert!(subs.contains(&EventSource::Guild(2)));
}
