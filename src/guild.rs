//! Guilds and their channels.

use crate::message::{Message, messages_view, MessageView};
use std::collections::HashMap;
use std::collections::HashSet;
use vstd::prelude::*;

verus! {

/// A channel of a guild with the messages the client holds, oldest first.
#[derive(Debug)]
pub struct Channel {
    pub name: String,
    pub is_category: bool,
    pub messages: Vec<Message>,
    /// Index of the most recent message the viewer has scrolled to.
    pub looking_at_message: usize,
    /// Whether the server has no older messages to page in.
    pub reached_top: bool,
    /// Whether a page of history is being fetched.
    pub loading_messages_history: bool,
}

impl Channel {
    /// An empty channel that has not paged in any history.
    pub fn new(name: String, is_category: bool) -> (r: Channel)
        ensures
            r.name == name,
            r.is_category == is_category,
            r.messages@ == Seq::<Message>::empty(),
            r.looking_at_message == 0,
            !r.reached_top,
            !r.loading_messages_history,
    {
        Channel {
            name,
            is_category,
            messages: Vec::new(),
            looking_at_message: 0,
            reached_top: false,
            loading_messages_history: false,
        }
    }

    /// The views of the messages, oldest first.
    pub open spec fn messages_view(&self) -> Seq<MessageView> {
        messages_view(self.messages@)
    }

    /// `self` is `other` with at most its messages and scroll cursor changed.
    pub open spec fn same_but_messages(&self, other: &Channel) -> bool {
        &&& self.name == other.name
        &&& self.is_category == other.is_category
        &&& self.reached_top == other.reached_top
        &&& self.loading_messages_history == other.loading_messages_history
    }
}

/// The first index of `x` in `s` from `i` on.
pub open spec fn index_from(s: Seq<u64>, x: u64, i: int) -> Option<int>
    decreases s.len() - i,
{
    if i < 0 || i >= s.len() {
        None
    } else if s[i] == x {
        Some(i)
    } else {
        index_from(s, x, i + 1)
    }
}

/// The first index of `x` in `s`.
pub open spec fn position_of(s: Seq<u64>, x: u64) -> Option<int> {
    index_from(s, x, 0)
}

/// `s` without any occurrence of `x`.
pub open spec fn without_id(s: Seq<u64>, x: u64) -> Seq<u64> {
    s.filter(|y: u64| y != x)
}

/// The channel order after moving `id` between the neighbours an event
/// names: right after `prev` where it is listed, else right before `next`
/// where it is listed, else last. A neighbour id of 0 names none.
pub open spec fn reordered(order: Seq<u64>, prev: u64, next: u64, id: u64) -> Seq<u64> {
    let base = without_id(order, id);
    if prev != 0 && position_of(base, prev) is Some {
        base.insert(position_of(base, prev).unwrap() + 1, id)
    } else if next != 0 && position_of(base, next) is Some {
        base.insert(position_of(base, next).unwrap(), id)
    } else {
        base.push(id)
    }
}

fn find_id(v: &Vec<u64>, x: u64) -> (r: Option<usize>)
    ensures
        match r {
            Some(k) => position_of(v@, x) == Some(k as int) && k < v@.len(),
            None => position_of(v@, x) is None,
        },
{
    let mut i: usize = 0;
    while i < v.len()
        invariant
            i <= v@.len(),
            position_of(v@, x) == index_from(v@, x, i as int),
        decreases v@.len() - i,
    {
        if v[i] == x {
            return Some(i);
        }
        i = i + 1;
    }
    None
}

fn remove_id(v: &Vec<u64>, x: u64) -> (r: Vec<u64>)
    ensures
        r@ == without_id(v@, x),
{
    let mut out: Vec<u64> = Vec::new();
    let mut i: usize = 0;
    while i < v.len()
        invariant
            i <= v@.len(),
            out@ == without_id(v@.take(i as int), x),
        decreases v@.len() - i,
    {
        proof {
            reveal_with_fuel(Seq::filter, 1);
            assert(v@.take(i + 1).drop_last() =~= v@.take(i as int));
        }
        if v[i] != x {
            out.push(v[i]);
        }
        i = i + 1;
    }
    assert(v@.take(v@.len() as int) =~= v@);
    out
}

/// A guild: its name, picture, channels and members.
#[derive(Debug)]
pub struct Guild {
    pub name: String,
    pub picture: Option<String>,
    pub channels: HashMap<u64, Channel>,
    /// The ids of the channels in display order.
    pub channel_order: Vec<u64>,
    pub members: HashSet<u64>,
}

impl Guild {
    /// A guild with no name, picture, channel or member.
    pub fn new() -> (r: Guild)
        ensures
            r.name@ == Seq::<char>::empty(),
            r.picture is None,
            r.channels@ == Map::<u64, Channel>::empty(),
            r.channel_order@ == Seq::<u64>::empty(),
            r.members@ == Set::<u64>::empty(),
    {
        Guild {
            name: String::new(),
            picture: None,
            channels: HashMap::new(),
            channel_order: Vec::new(),
            members: HashSet::new(),
        }
    }

    /// Moves `channel_id` in the channel order between the given neighbours.
    pub fn update_channel_order(&mut self, previous_id: u64, next_id: u64, channel_id: u64)
        ensures
            final(self).channel_order@ == reordered(
                old(self).channel_order@,
                previous_id,
                next_id,
                channel_id,
            ),
            final(self).name == old(self).name,
            final(self).picture == old(self).picture,
            final(self).channels == old(self).channels,
            final(self).members == old(self).members,
    {
        let mut order = remove_id(&self.channel_order, channel_id);
        let ghost base = order@;
        let at_prev = if previous_id != 0 {
            find_id(&order, previous_id)
        } else {
            None
        };
        match at_prev {
            Some(k) => {
                assert(k < order.len());
                order.insert(k + 1, channel_id);
            },
            None => {
                let at_next = if next_id != 0 {
                    find_id(&order, next_id)
                } else {
                    None
                };
                match at_next {
                    Some(k) => {
                        order.insert(k, channel_id);
                    },
                    None => {
                        order.push(channel_id);
                    },
                }
            },
        }
        self.channel_order = order;
    }

    /// Removes `channel_id` and its place in the order.
    pub fn remove_channel(&mut self, channel_id: u64)
        ensures
            final(self).channels@ == old(self).channels@.remove(channel_id),
            final(self).channel_order@ == without_id(old(self).channel_order@, channel_id),
            final(self).name == old(self).name,
            final(self).picture == old(self).picture,
            final(self).members == old(self).members,
    {
        broadcast use vstd::std_specs::hash::group_hash_axioms;
        self.channels.remove(&channel_id);
        self.channel_order = remove_id(&self.channel_order, channel_id);
    }
}

} // verus!
