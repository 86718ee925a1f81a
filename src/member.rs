//! Members: the user profiles known to the client, shared by all guilds.

use vstd::prelude::*;

verus! {

/// A user's presence.
#[derive(Debug, Clone, Copy, PartialEq, Eq, Structural)]
pub enum UserStatus {
    Offline,
    Online,
    Idle,
    DoNotDisturb,
}

/// A user's profile as the client knows it.
#[derive(Debug, Clone)]
pub struct Member {
    pub username: String,
    pub status: UserStatus,
    pub avatar_url: Option<String>,
    /// Where and when (in milliseconds) the user was last seen typing.
    pub typing_in_channel: Option<(u64, u64, u64)>,
}

impl Member {
    /// A profile with no name, offline, with no avatar.
    pub fn new() -> (r: Member)
        ensures
            r@.username == Seq::<char>::empty(),
            r.status == UserStatus::Offline,
            r.avatar_url is None,
            r.typing_in_channel is None,
    {
        Member {
            username: String::new(),
            status: UserStatus::Offline,
            avatar_url: None,
            typing_in_channel: None,
        }
    }
}

pub struct MemberView {
    pub username: Seq<char>,
    pub status: UserStatus,
    pub avatar_url: Option<Seq<char>>,
    pub typing_in_channel: Option<(u64, u64, u64)>,
}

impl View for Member {
    type V = MemberView;

    open spec fn view(&self) -> MemberView {
        MemberView {
            username: self.username@,
            status: self.status,
            avatar_url: crate::message::opt_text(self.avatar_url),
            typing_in_channel: self.typing_in_channel,
        }
    }
}

} // verus!
