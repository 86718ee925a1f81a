//! Messages, their content, and the follow-up requests they give rise to.

use crate::media::ContentType;
use vstd::prelude::*;

verus! {

/// The identity of a message: a transaction id given locally at send time,
/// until the server acknowledges the message under its own id.
#[derive(Debug, Clone, Copy, PartialEq, Eq, Structural)]
pub enum MessageId {
    Unack(u64),
    Ack(u64),
}

impl MessageId {
    /// The transaction id of a message not yet acknowledged.
    pub fn transaction_id(&self) -> (r: Option<u64>)
        ensures
            r == match *self {
                MessageId::Unack(t) => Some(t),
                MessageId::Ack(_) => None,
            },
    {
        match self {
            MessageId::Unack(t) => Some(*t),
            MessageId::Ack(_) => None,
        }
    }

    /// The server id of an acknowledged message.
    pub fn id(&self) -> (r: Option<u64>)
        ensures
            r == match *self {
                MessageId::Ack(i) => Some(i),
                MessageId::Unack(_) => None,
            },
    {
        match self {
            MessageId::Ack(i) => Some(*i),
            MessageId::Unack(_) => None,
        }
    }
}

/// The text of an optional string.
pub open spec fn opt_text(o: Option<String>) -> Option<Seq<char>> {
    match o {
        Some(s) => Some(s@),
        None => None,
    }
}

fn duplicate_opt_string(o: &Option<String>) -> (r: Option<String>)
    ensures
        opt_text(r) == opt_text(*o),
{
    match o {
        Some(s) => Some(s.clone()),
        None => None,
    }
}

/// The header or footer line of an embed, with an optional icon.
#[derive(Debug, Clone)]
pub struct EmbedHeading {
    pub text: String,
    pub icon: Option<String>,
}

pub struct EmbedHeadingView {
    pub text: Seq<char>,
    pub icon: Option<Seq<char>>,
}

impl View for EmbedHeading {
    type V = EmbedHeadingView;

    open spec fn view(&self) -> EmbedHeadingView {
        EmbedHeadingView { text: self.text@, icon: opt_text(self.icon) }
    }
}

impl EmbedHeading {
    /// A copy with the same text.
    pub fn duplicate(&self) -> (r: EmbedHeading)
        ensures
            r@ == self@,
    {
        EmbedHeading { text: self.text.clone(), icon: duplicate_opt_string(&self.icon) }
    }
}

/// The text of an optional heading.
pub open spec fn opt_heading(h: Option<EmbedHeading>) -> Option<EmbedHeadingView> {
    match h {
        Some(h) => Some(h@),
        None => None,
    }
}

fn duplicate_opt_heading(h: &Option<EmbedHeading>) -> (r: Option<EmbedHeading>)
    ensures
        opt_heading(r) == opt_heading(*h),
{
    match h {
        Some(h) => Some(h.duplicate()),
        None => None,
    }
}

/// A rich content block.
#[derive(Debug, Clone)]
pub struct Embed {
    pub title: String,
    pub body: String,
    pub header: Option<EmbedHeading>,
    pub footer: Option<EmbedHeading>,
}

pub struct EmbedView {
    pub title: Seq<char>,
    pub body: Seq<char>,
    pub header: Option<EmbedHeadingView>,
    pub footer: Option<EmbedHeadingView>,
}

impl View for Embed {
    type V = EmbedView;

    open spec fn view(&self) -> EmbedView {
        EmbedView {
            title: self.title@,
            body: self.body@,
            header: opt_heading(self.header),
            footer: opt_heading(self.footer),
        }
    }
}

impl Embed {
    /// A copy with the same text.
    pub fn duplicate(&self) -> (r: Embed)
        ensures
            r@ == self@,
    {
        Embed {
            title: self.title.clone(),
            body: self.body.clone(),
            header: duplicate_opt_heading(&self.header),
            footer: duplicate_opt_heading(&self.footer),
        }
    }
}

/// The views of a list of embeds.
pub open spec fn embeds_view(es: Seq<Embed>) -> Seq<EmbedView> {
    es.map_values(|e: Embed| e@)
}

/// What a message holds: plain text or embeds.
#[derive(Debug, Clone)]
pub enum Content {
    Text(String),
    Embeds(Vec<Embed>),
}

pub enum ContentView {
    Text(Seq<char>),
    Embeds(Seq<EmbedView>),
}

impl View for Content {
    type V = ContentView;

    open spec fn view(&self) -> ContentView {
        match self {
            Content::Text(t) => ContentView::Text(t@),
            Content::Embeds(es) => ContentView::Embeds(embeds_view(es@)),
        }
    }
}

impl Content {
    /// A copy with the same text.
    pub fn duplicate(&self) -> (r: Content)
        ensures
            r@ == self@,
    {
        match self {
            Content::Text(t) => Content::Text(t.clone()),
            Content::Embeds(es) => {
                let mut out: Vec<Embed> = Vec::new();
                let mut i: usize = 0;
                while i < es.len()
                    invariant
                        i <= es@.len(),
                        embeds_view(out@) == embeds_view(es@.take(i as int)),
                    decreases es@.len() - i,
                {
                    let d = es[i].duplicate();
                    let ghost prev = out@;
                    out.push(d);
                    assert(es@.take(i + 1) =~= es@.take(i as int).push(es@[i as int]));
                    assert(embeds_view(out@) =~= embeds_view(prev).push(d@));
                    assert(embeds_view(es@.take(i + 1)) =~= embeds_view(es@.take(i as int)).push(
                        es@[i as int]@,
                    ));
                    i = i + 1;
                }
                assert(es@.take(es@.len() as int) =~= es@);
                Content::Embeds(out)
            },
        }
    }
}

/// Per-message presentation overrides, as bridges send them.
#[derive(Debug, Clone)]
pub struct Overrides {
    pub name: Option<String>,
    pub avatar_url: Option<String>,
}

pub struct OverridesView {
    pub name: Option<Seq<char>>,
    pub avatar_url: Option<Seq<char>>,
}

impl View for Overrides {
    type V = OverridesView;

    open spec fn view(&self) -> OverridesView {
        OverridesView { name: opt_text(self.name), avatar_url: opt_text(self.avatar_url) }
    }
}

/// The text of optional overrides.
pub open spec fn opt_overrides(o: Option<Overrides>) -> Option<OverridesView> {
    match o {
        Some(o) => Some(o@),
        None => None,
    }
}

/// A message of a channel.
#[derive(Debug, Clone)]
pub struct Message {
    pub id: MessageId,
    pub content: Content,
    pub overrides: Option<Overrides>,
}

pub struct MessageView {
    pub id: MessageId,
    pub content: ContentView,
    pub overrides: Option<OverridesView>,
}

impl View for Message {
    type V = MessageView;

    open spec fn view(&self) -> MessageView {
        MessageView {
            id: self.id,
            content: self.content@,
            overrides: opt_overrides(self.overrides),
        }
    }
}

impl Message {
    /// A copy with the same id and text.
    pub fn duplicate(&self) -> (r: Message)
        ensures
            r@ == self@,
    {
        let overrides = match &self.overrides {
            Some(o) => Some(
                Overrides {
                    name: duplicate_opt_string(&o.name),
                    avatar_url: duplicate_opt_string(&o.avatar_url),
                },
            ),
            None => None,
        };
        Message { id: self.id, content: self.content.duplicate(), overrides }
    }
}

/// The views of a list of messages.
pub open spec fn messages_view(ms: Seq<Message>) -> Seq<MessageView> {
    ms.map_values(|m: Message| m@)
}

/// A content to fetch, with the kind expected of it.
#[derive(Debug, Clone)]
pub struct Attachment {
    pub id: String,
    pub kind: ContentType,
}

/// A follow-up request that applying an event or a page of history asks of
/// the caller, who executes it.
#[derive(Debug)]
pub enum PostProcessEvent {
    FetchProfile(u64),
    FetchGuildData(u64),
    FetchThumbnail(Attachment),
    GoToFirstMsgOnChannel(u64),
}

pub enum Request {
    FetchProfile(u64),
    FetchGuildData(u64),
    FetchThumbnail(Seq<char>, ContentType),
    GoToFirstMsgOnChannel(u64),
}

impl View for PostProcessEvent {
    type V = Request;

    open spec fn view(&self) -> Request {
        match self {
            PostProcessEvent::FetchProfile(u) => Request::FetchProfile(*u),
            PostProcessEvent::FetchGuildData(g) => Request::FetchGuildData(*g),
            PostProcessEvent::FetchThumbnail(a) => Request::FetchThumbnail(a.id@, a.kind),
            PostProcessEvent::GoToFirstMsgOnChannel(c) => Request::GoToFirstMsgOnChannel(*c),
        }
    }
}

/// The views of a list of requests.
pub open spec fn requests_view(ps: Seq<PostProcessEvent>) -> Seq<Request> {
    ps.map_values(|p: PostProcessEvent| p@)
}

/// Image fetch requests for the given content ids, in order.
pub open spec fn image_fetches(ids: Seq<Seq<char>>) -> Seq<Request> {
    ids.map_values(|i: Seq<char>| Request::FetchThumbnail(i, ContentType::Image))
}

/// The icon of an optional heading, as a list of zero or one id.
pub open spec fn heading_icon(h: Option<EmbedHeadingView>) -> Seq<Seq<char>> {
    match h {
        Some(h) => match h.icon {
            Some(i) => seq![i],
            None => Seq::empty(),
        },
        None => Seq::empty(),
    }
}

/// The icons of a list of embeds: header then footer, embed by embed.
pub open spec fn embeds_icons(es: Seq<EmbedView>) -> Seq<Seq<char>>
    decreases es.len(),
{
    if es.len() == 0 {
        Seq::empty()
    } else {
        embeds_icons(es.drop_last()) + heading_icon(es.last().header) + heading_icon(
            es.last().footer,
        )
    }
}

/// The icons that a message's embeds show.
pub open spec fn content_icons(m: MessageView) -> Seq<Seq<char>> {
    match m.content {
        ContentView::Text(_) => Seq::empty(),
        ContentView::Embeds(es) => embeds_icons(es),
    }
}

/// The avatar override of a message, as a list of zero or one id.
pub open spec fn avatar_override(m: MessageView) -> Seq<Seq<char>> {
    match m.overrides {
        Some(o) => match o.avatar_url {
            Some(a) => seq![a],
            None => Seq::empty(),
        },
        None => Seq::empty(),
    }
}

/// Appends a request to fetch the image `id`.
pub fn push_image_fetch(post: &mut Vec<PostProcessEvent>, id: String)
    ensures
        requests_view(final(post)@) == requests_view(old(post)@) + image_fetches(seq![id@]),
{
    post.push(PostProcessEvent::FetchThumbnail(Attachment { id, kind: ContentType::Image }));
    assert(requests_view(final(post)@) =~= requests_view(old(post)@) + image_fetches(seq![id@]));
}

fn post_heading_icon(post: &mut Vec<PostProcessEvent>, h: &Option<EmbedHeading>)
    ensures
        requests_view(final(post)@) == requests_view(old(post)@) + image_fetches(
            heading_icon(opt_heading(*h)),
        ),
{
    if let Some(h) = h {
        if let Some(icon) = &h.icon {
            push_image_fetch(post, icon.clone());
            return;
        }
    }
    assert(requests_view(post@) =~= requests_view(post@) + image_fetches(Seq::empty()));
}

/// Asks for the header and footer icons of an embed.
pub fn post_heading(post: &mut Vec<PostProcessEvent>, embed: &Embed)
    ensures
        requests_view(final(post)@) == requests_view(old(post)@) + image_fetches(
            heading_icon(embed@.header) + heading_icon(embed@.footer),
        ),
{
    post_heading_icon(post, &embed.header);
    post_heading_icon(post, &embed.footer);
    assert(image_fetches(heading_icon(embed@.header) + heading_icon(embed@.footer)) =~= image_fetches(
        heading_icon(embed@.header),
    ) + image_fetches(heading_icon(embed@.footer)));
}

impl Message {
    /// Asks for the icons that this message's embeds show.
    pub fn post_process(&self, post: &mut Vec<PostProcessEvent>)
        ensures
            requests_view(final(post)@) == requests_view(old(post)@) + image_fetches(
                content_icons(self@),
            ),
    {
        match &self.content {
            Content::Text(_) => {
                assert(requests_view(post@) =~= requests_view(post@) + image_fetches(
                    Seq::empty(),
                ));
            },
            Content::Embeds(es) => {
                let mut i: usize = 0;
                assert(embeds_view(es@.take(0)) =~= Seq::<EmbedView>::empty());
                assert(requests_view(post@) =~= requests_view(old(post)@) + image_fetches(
                    embeds_icons(embeds_view(es@.take(0))),
                ));
                while i < es.len()
                    invariant
                        i <= es@.len(),
                        requests_view(post@) == requests_view(old(post)@) + image_fetches(
                            embeds_icons(embeds_view(es@.take(i as int))),
                        ),
                    decreases es@.len() - i,
                {
                    post_heading(post, &es[i]);
                    proof {
                        let a = embeds_view(es@.take(i as int));
                        let b = embeds_view(es@.take(i + 1));
                        assert(b =~= a.push(es@[i as int]@));
                        assert(b.drop_last() =~= a);
                        let e = es@[i as int]@;
                        assert(image_fetches(embeds_icons(b)) =~= image_fetches(embeds_icons(a))
                            + image_fetches(heading_icon(e.header) + heading_icon(e.footer)));
                    }
                    i = i + 1;
                }
                assert(es@.take(es@.len() as int) =~= es@);
            },
        }
    }
}

} // verus!
