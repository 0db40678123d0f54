use vstd::prelude::*;
use vstd::string::*;

use crate::command::Command;
use crate::action::{action_views, send, Action, ActionView};
use crate::channel::{ext_msg, wrap_message_ext, Message, MessageType, MessageView};
use crate::player::{player_at, Group, Player, PlayerTable};
use crate::text::{lower, str_eq, to_lower, views};

verus! {

broadcast use vstd::string::group_string_axioms;

/// The `friend` and `group` commands: the player's friends, or the members of their group.
pub struct FriendCommand<'a> {
    pub players: &'a PlayerTable,
    pub msg: &'a Message,
    pub msg_type: String,
    pub groups: Vec<Group>,
    pub out: Vec<Action>,
}

/// The first `n` names as GMCP list items; every item but the last ends with `tail`.
pub open spec fn name_items(names: Seq<Seq<char>>, n: int, tail: Seq<char>) -> Seq<char>
    decreases n,
{
    if n <= 0 {
        seq![]
    } else {
        name_items(names, n - 1, tail) + "{\"name\" : \""@ + names[n - 1] + if n < names.len() {
            tail
        } else {
            "\"}"@
        }
    }
}

/// The GMCP list of a player's friends.
pub open spec fn friend_view(friends: Seq<Seq<char>>) -> Seq<char> {
    "\n            Friend ["@ + name_items(friends, friends.len() as int, "\",},"@) + "]"@
}

/// The GMCP list of a group's members.
pub open spec fn group_view(members: Seq<Seq<char>>) -> Seq<char> {
    "\n            Group ["@ + name_items(members, members.len() as int, "\"},"@) + "]"@
}

/// Whether `i` is the first position of a group named `name`.
pub open spec fn first_group_at(groups: Seq<Group>, name: Seq<char>, i: int) -> bool {
    &&& 0 <= i < groups.len()
    &&& groups[i].name@ == name
    &&& forall|j: int| 0 <= j < i ==> groups[j].name@ != name
}

/// Whether some group is named `name`.
pub open spec fn has_group(groups: Seq<Group>, name: Seq<char>) -> bool {
    exists|i: int| 0 <= i < groups.len() && groups[i].name@ == name
}

/// The first group named `name` (meaningful when there is one).
pub open spec fn group_named(groups: Seq<Group>, name: Seq<char>) -> Group {
    groups[choose|i: int| first_group_at(groups, name, i)]
}

/// What the list sent on channel `channel` to the player `p` holds: their friends on
/// `friend`, their group's members on `group` (`None` when no group has that name), and
/// nothing on any other channel.
pub open spec fn list_view(p: Player, groups: Seq<Group>, channel: Seq<char>) -> Option<Seq<char>> {
    if channel == "friend"@ {
        Some(friend_view(views(p.friends@)))
    } else if channel == "group"@ {
        if has_group(groups, p.group_name@) {
            Some(group_view(views(group_named(groups, p.group_name@).members@)))
        } else {
            None
        }
    } else {
        Some(seq![])
    }
}

/// The actions after sending the list to `addr` for the player on the message's connection:
/// the list goes out as a GMCP message, or, without such a group, nothing goes out.
pub open spec fn list_actions(
    es: Seq<(u64, Player)>,
    groups: Seq<Group>,
    msg: MessageView,
    channel: Seq<char>,
    addr: u64,
    before: Seq<ActionView>,
) -> Seq<ActionView> {
    match list_view(player_at(es, msg.addr).unwrap(), groups, channel) {
        Some(view) => before.push(send(ext_msg(MessageType::IacDoGmcp, addr, view))),
        None => before,
    }
}

/// The answer to sending the list: empty, or `no group` without such a group.
pub open spec fn list_answer(
    es: Seq<(u64, Player)>,
    groups: Seq<Group>,
    msg: MessageView,
    channel: Seq<char>,
) -> Seq<char> {
    match list_view(player_at(es, msg.addr).unwrap(), groups, channel) {
        Some(view) => Seq::<char>::empty(),
        None => "no group"@,
    }
}

/// The list items for `names`, each but the last ending with `tail`.
fn push_items(view: &mut String, names: &Vec<String>, tail: &str)
    ensures
        final(view)@ == old(view)@ + name_items(views(names@), names@.len() as int, tail@),
{
    let ghost start = view@;
    let ghost ns = views(names@);
    let mut i: usize = 0;
    while i < names.len()
        invariant
            i <= names@.len(),
            ns == views(names@),
            ns.len() == names@.len(),
            view@ == start + name_items(ns, i as int, tail@),
        decreases names@.len() - i,
    {
        assert(ns[i as int] == names@[i as int]@);
        view.append("{\"name\" : \"");
        view.append(names[i].as_str());
        if i + 1 < names.len() {
            view.append(tail);
        } else {
            view.append("\"}");
        }
        i += 1;
        assert(view@ =~= start + name_items(ns, i as int, tail@));
    }
}

/// Where the first group named `name` stands, if there is one.
fn first_group(groups: &Vec<Group>, name: &str) -> (r: Option<usize>)
    ensures
        match r {
            Some(i) => first_group_at(groups@, name@, i as int),
            None => !has_group(groups@, name@),
        },
{
    let mut i: usize = 0;
    while i < groups.len()
        invariant
            i <= groups@.len(),
            forall|j: int| 0 <= j < i ==> groups@[j].name@ != name@,
        decreases groups@.len() - i,
    {
        if str_eq(groups[i].name.as_str(), name) {
            return Some(i);
        }
        i += 1;
    }
    None
}

impl<'a> FriendCommand<'a> {
    /// A command reading `msg` against the players on line and the groups `groups`.
    pub fn new(players: &'a PlayerTable, msg: &'a Message, groups: Vec<Group>) -> (r: Self)
        ensures
            r.players == players,
            r.msg == msg,
            r.msg_type@ == Seq::<char>::empty(),
            r.groups == groups,
            r.out@ == Seq::<Action>::empty(),
    {
        FriendCommand { players, msg, msg_type: String::new(), groups, out: Vec::new() }
    }

    /// Sends the list of the command's channel to `addr` (see `list_outcome`).
    pub fn send_msg(&mut self, addr: u64, message: &str) -> (r: String)
        requires
            player_at(old(self).players.entries@, old(self).msg.addr) is Some,
        ensures
            final(self).players == old(self).players,
            final(self).msg == old(self).msg,
            final(self).msg_type == old(self).msg_type,
            final(self).groups == old(self).groups,
            action_views(final(self).out@) == list_actions(
                old(self).players.entries@,
                old(self).groups@,
                old(self).msg@,
                old(self).msg_type@,
                addr,
                action_views(old(self).out@),
            ),
            r@ == list_answer(
                old(self).players.entries@,
                old(self).groups@,
                old(self).msg@,
                old(self).msg_type@,
            ),
    {
        let ghost before = action_views(self.out@);
        let player = match self.players.get(self.msg.addr) {
            Some(p) => p,
            None => {
                return String::new();
            },
        };
        proof {
            reveal_strlit("friend");
            reveal_strlit("group");
            reveal_strlit("");
            assert("friend"@ != "group"@) by {
                assert("friend"@[0] != "group"@[0]);
            }
        }
        let mut view = String::new();
        if str_eq(self.msg_type.as_str(), "friend") {
            view = String::from_str("\n            Friend [");
            push_items(&mut view, &player.friends, "\",},");
            view.append("]");
        } else if str_eq(self.msg_type.as_str(), "group") {
            let g = match first_group(&self.groups, player.group_name.as_str()) {
                Some(g) => g,
                None => {
                    return String::from_str("no group");
                },
            };
            proof {
                let c = choose|i: int| first_group_at(self.groups@, player.group_name@, i);
                assert(first_group_at(self.groups@, player.group_name@, g as int));
                if c < g {
                    assert(self.groups@[c].name@ != player.group_name@);
                }
                if c > g {
                    assert(self.groups@[g as int].name@ != player.group_name@);
                }
            }
            view = String::from_str("\n            Group [");
            push_items(&mut view, &self.groups[g].members, "\"},");
            view.append("]");
        }
        let ghost v = view@;
        let m = wrap_message_ext(MessageType::IacDoGmcp, addr, view);
        self.out.push(Action::Send(m));
        assert(action_views(self.out@) =~= before.push(send(ext_msg(MessageType::IacDoGmcp, addr, v))));
        String::new()
    }

}

impl<'a> Command for FriendCommand<'a> {
    /// What the command needs of the players on line.
    open spec fn ready(&self) -> bool {
        &&& player_at(self.players.entries@, self.msg.addr) is Some
    }

    /// What a run of the command does, answering `r`.
    open spec fn ran(&self, after: &Self, r: Seq<char>) -> bool {
        &&& after.players == self.players
        &&& after.msg == self.msg
        &&& after.groups == self.groups
        &&& after.msg_type@ == lower(self.msg.content@)
        &&& r == self.msg.content@
        &&& action_views(after.out@) == list_actions(
            self.players.entries@,
            self.groups@,
            self.msg@,
            lower(self.msg.content@),
            self.msg.addr,
            action_views(self.out@),
        )
    }

    /// Takes the channel from the message, lower-cased, sends its list to the sender and
    /// answers the message's text.
    fn execute(&mut self) -> (r: String)
    {
        self.msg_type = to_lower(self.msg.content.as_str());
        let _answer = self.send_msg(self.msg.addr, "");
        self.msg.content.clone()
    }
}

}
