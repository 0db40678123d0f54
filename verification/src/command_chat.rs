use vstd::prelude::*;
use vstd::string::*;

use crate::command::Command;
use crate::action::{action_views, say, send, Action, ActionView};
use crate::channel::{ext_msg, wrap_message, wrap_message_ext, Message, MessageType, MessageView};
use crate::player::{first_named_at, has_named, player_at, Player, PlayerTable};
use crate::text::{
    split, split_str, views, str_eq, trim_start_str, trim_start_str_exec, trim_ws, trim_ws_str, word_or,
    word_or_exec,
};
use crate::utils::{insert_line, wrapped_lines};

verus! {

broadcast use vstd::string::group_string_axioms;

/// The `chat` command.
pub struct ChatCommand<'a> {
    pub players: &'a PlayerTable,
    pub msg: &'a Message,
    pub msg_type: String,
    pub ps: Vec<Player>,
    pub out: Vec<Action>,
}

/// The GMCP chat message carrying `message` on `channel`, broken into lines of 19 characters.
pub open spec fn chat_gmcp(addr: u64, channel: Seq<char>, message: Seq<char>) -> ActionView {
    send(
        ext_msg(
            MessageType::IacDoGmcp,
            addr,
            "\n        Chat {"@ + "\n           \"channel\": \""@ + channel
                + "\",\n           \"message\" : \""@ + wrapped_lines(message, 19)
                + "\"\n        }"@,
        ),
    )
}

/// A chat line delivered to a client: the line itself, then its GMCP copy.
pub open spec fn deliver(addr: u64, channel: Seq<char>, view: Seq<char>) -> Seq<ActionView> {
    seq![send(ext_msg(MessageType::NoPrompt, addr, view)), chat_gmcp(addr, channel, view)]
}

/// A chat line delivered to every entry of the table (world chat).
pub open spec fn deliver_all(es: Seq<(u64, Player)>, view: Seq<char>) -> Seq<ActionView>
    decreases es.len(),
{
    if es.len() == 0 {
        seq![]
    } else {
        deliver_all(es.drop_last(), view) + deliver(es.last().0, "world"@, view)
    }
}

/// A chat line delivered to every entry of the table in group `group`.
pub open spec fn deliver_group(es: Seq<(u64, Player)>, group: Seq<char>, view: Seq<char>) -> Seq<ActionView>
    decreases es.len(),
{
    if es.len() == 0 {
        seq![]
    } else {
        deliver_group(es.drop_last(), group, view) + if es.last().1.group_name@ == group {
            deliver(es.last().0, "group"@, view)
        } else {
            seq![]
        }
    }
}

/// The players of `ps` in group `g`, in order.
pub open spec fn in_group(ps: Seq<Player>, g: Seq<char>) -> Seq<Player>
    decreases ps.len(),
{
    if ps.len() == 0 {
        ps
    } else {
        let rest = in_group(ps.drop_first(), g);
        if ps[0].group_name@ == g {
            seq![ps[0]] + rest
        } else {
            rest
        }
    }
}

/// The first entry for a player named `name` (meaningful when there is one).
pub open spec fn first_named(es: Seq<(u64, Player)>, name: Seq<char>) -> (u64, Player) {
    es[choose|i: int| first_named_at(es, name, i)]
}

/// Whether some entry on line belongs to group `group`.
pub open spec fn has_member(es: Seq<(u64, Player)>, group: Seq<char>) -> bool {
    exists|i: int| 0 <= i < es.len() && es[i].1.group_name@ == group
}

/// What `chat <name or group> <text>` does, `known` being the registered players. With no
/// second word the player is asked what to say; nobody chats with themself. When the word
/// names neither a registered player nor a group, the whole line after the command word goes
/// to everyone on line (`world`). When it names a group, the text after it goes to the
/// group's members on line (`group`). Otherwise it names a player, who must be on line and
/// must be told something; they get the text and the sender a copy (the answer is the line).
/// The channel of the GMCP copies is kept as the command's message type.
pub open spec fn chat_outcome(
    es: Seq<(u64, Player)>,
    known: Seq<Player>,
    msg: MessageView,
    before: Seq<ActionView>,
    after: Seq<ActionView>,
    ret: Seq<char>,
    known_after: Seq<Player>,
    channel_before: Seq<char>,
    channel: Seq<char>,
) -> bool {
    let addr = msg.addr;
    let words = split(msg.content, seq![' ']);
    let para0 = words[0];
    let para1 = word_or(msg.content, 1, seq![]);
    let p = player_at(es, addr).unwrap();
    let after_word = trim_ws(trim_start_str(msg.content, para0));
    let after_name = trim_ws(trim_start_str(after_word, para1));
    if words.len() <= 1 {
        &&& ret == "no content"@
        &&& after == before.push(say(addr, "要chat什么？"@))
        &&& known_after == known
        &&& channel == channel_before
    } else if p.name@ == para1 {
        &&& ret == "no content"@
        &&& after == before.push(say(addr, "自己不能和自己聊天"@))
        &&& known_after == known
        &&& channel == channel_before
    } else {
        let group = in_group(known, para1);
        let named = exists|i: int| 0 <= i < known.len() && known[i].name@ == para1;
        &&& known_after == group
        &&& if !named && group.len() == 0 {
            &&& ret == "world"@
            &&& channel == "world"@
            &&& after == before + deliver_all(
                es,
                "【世界】"@ + p.fullname@ + "("@ + p.name@ + ")"@ + ": "@ + after_word,
            )
        } else if group.len() != 0 {
            &&& ret == "group"@
            &&& channel == if has_member(es, para1) { "group"@ } else { channel_before }
            &&& after == before + deliver_group(
                es,
                para1,
                "【同盟】"@ + p.fullname@ + "("@ + p.name@ + ")"@ + ": "@ + after_name,
            )
        } else if !has_named(es, para1) {
            &&& ret == "no content"@
            &&& after == before.push(say(addr, para1 + "现在未上线"@))
            &&& channel == channel_before
        } else if words.len() <= 2 {
            &&& ret == "no content"@
            &&& after == before.push(say(addr, "要对"@ + para1 + "说什么？"@))
            &&& channel == channel_before
        } else {
            let (to_addr, to) = first_named(es, para1);
            &&& ret == msg.content
            &&& channel == "friend"@
            &&& after == before + deliver(
                to_addr,
                "friend"@,
                "【私聊】"@ + "来自"@ + p.fullname@ + "("@ + p.name@ + ")的消息: "@ + after_name,
            ) + deliver(addr, "friend"@, "【私聊】"@ + "发送给"@ + to.name@ + "的消息: "@ + after_name)
        }
    }
}

impl<'a> ChatCommand<'a> {
    /// A command reading `msg` against the players on line and the registered players `ps`.
    pub fn new(players: &'a PlayerTable, msg: &'a Message, ps: Vec<Player>) -> (r: Self)
        ensures
            r.players == players,
            r.msg == msg,
            r.msg_type@ == Seq::<char>::empty(),
            r.ps == ps,
            r.out@ == Seq::<Action>::empty(),
    {
        ChatCommand { players, msg, msg_type: String::new(), ps, out: Vec::new() }
    }

    /// Sends `message` to `addr` as GMCP chat on the command's current channel.
    pub fn send_msg(&mut self, addr: u64, message: &str) -> (r: String)
        ensures
            r@ == Seq::<char>::empty(),
            final(self).players == old(self).players,
            final(self).msg == old(self).msg,
            final(self).msg_type == old(self).msg_type,
            final(self).ps == old(self).ps,
            action_views(final(self).out@) == action_views(old(self).out@).push(
                chat_gmcp(addr, old(self).msg_type@, message@),
            ),
    {
        let message_0a = insert_line(message, 19);
        let mut view = String::from_str("\n        Chat {");
        view.append("\n           \"channel\": \"");
        view.append(self.msg_type.as_str());
        view.append("\",\n           \"message\" : \"");
        view.append(message_0a.as_str());
        view.append("\"\n        }");
        let m = wrap_message_ext(MessageType::IacDoGmcp, addr, view);
        let ghost before = action_views(self.out@);
        self.out.push(Action::Send(m));
        assert(action_views(self.out@) =~= before.push(chat_gmcp(addr, old(self).msg_type@, message@)));
        String::new()
    }

    /// Delivers a chat line to `addr` on the current channel.
    fn deliver_to(&mut self, addr: u64, view: &str)
        ensures
            final(self).players == old(self).players,
            final(self).msg == old(self).msg,
            final(self).msg_type == old(self).msg_type,
            final(self).ps == old(self).ps,
            action_views(final(self).out@) == action_views(old(self).out@) + deliver(
                addr,
                old(self).msg_type@,
                view@,
            ),
    {
        let ghost before = action_views(self.out@);
        let m = wrap_message_ext(MessageType::NoPrompt, addr, String::from_str(view));
        self.out.push(Action::Send(m));
        self.send_msg(addr, view);
        assert(action_views(self.out@) =~= before + deliver(addr, old(self).msg_type@, view@));
    }

    /// Keeps only the registered players of group `g`.
    fn keep_group(&mut self, g: &str)
        ensures
            final(self).players == old(self).players,
            final(self).msg == old(self).msg,
            final(self).msg_type == old(self).msg_type,
            final(self).out == old(self).out,
            final(self).ps@ == in_group(old(self).ps@, g@),
    {
        let ghost orig = self.ps@;
        let mut i = self.ps.len();
        assert(orig.skip(orig.len() as int) =~= Seq::<Player>::empty());
        assert(self.ps@ =~= orig.take(i as int) + in_group(orig.skip(i as int), g@));
        while i > 0
            invariant
                i <= orig.len(),
                self.players == old(self).players,
                self.msg == old(self).msg,
                self.msg_type == old(self).msg_type,
                self.out == old(self).out,
                orig == old(self).ps@,
                self.ps@ == orig.take(i as int) + in_group(orig.skip(i as int), g@),
            decreases i,
        {
            let k = i - 1;
            assert(orig.skip(k as int).drop_first() =~= orig.skip(i as int));
            assert(orig.skip(k as int)[0] == orig[k as int]);
            assert(self.ps@[k as int] == orig[k as int]);
            if !str_eq(self.ps[k].group_name.as_str(), g) {
                let _gone = self.ps.remove(k);
                assert(self.ps@ =~= orig.take(k as int) + in_group(orig.skip(k as int), g@));
            } else {
                assert(self.ps@ =~= orig.take(k as int) + in_group(orig.skip(k as int), g@));
            }
            i = k;
        }
        assert(orig.skip(0) =~= orig);
        assert(self.ps@ =~= in_group(orig, g@));
    }

    /// Delivers `view` to every entry on line, on the `world` channel.
    fn deliver_world(&mut self, view: &str)
        requires
            old(self).msg_type@ == "world"@,
        ensures
            final(self).players == old(self).players,
            final(self).msg == old(self).msg,
            final(self).msg_type == old(self).msg_type,
            final(self).ps == old(self).ps,
            action_views(final(self).out@) == action_views(old(self).out@) + deliver_all(
                old(self).players.entries@,
                view@,
            ),
    {
        let ghost before = action_views(self.out@);
        let ghost es = self.players.entries@;
        let mut i: usize = 0;
        assert(es.take(0) =~= Seq::<(u64, Player)>::empty());
        while i < self.players.entries.len()
            invariant
                i <= es.len(),
                es == self.players.entries@,
                self.players == old(self).players,
                self.msg == old(self).msg,
                self.msg_type == old(self).msg_type,
                self.msg_type@ == "world"@,
                self.ps == old(self).ps,
                before == action_views(old(self).out@),
                action_views(self.out@) == before + deliver_all(es.take(i as int), view@),
            decreases es.len() - i,
        {
            assert(es.take(i + 1).drop_last() =~= es.take(i as int));
            assert(es.take(i + 1).last() == es[i as int]);
            let a = self.players.entries[i].0;
            self.deliver_to(a, view);
            i += 1;
        }
        assert(es.take(es.len() as int) =~= es);
    }

    /// Delivers `view` to every entry on line in group `group`, on the `group` channel.
    fn deliver_to_group(&mut self, group: &str, view: &str)
        ensures
            final(self).players == old(self).players,
            final(self).msg == old(self).msg,
            final(self).msg_type@ == if has_member(old(self).players.entries@, group@) {
                "group"@
            } else {
                old(self).msg_type@
            },
            final(self).ps == old(self).ps,
            action_views(final(self).out@) == action_views(old(self).out@) + deliver_group(
                old(self).players.entries@,
                group@,
                view@,
            ),
    {
        let ghost before = action_views(self.out@);
        let ghost es = self.players.entries@;
        let mut i: usize = 0;
        assert(es.take(0) =~= Seq::<(u64, Player)>::empty());
        while i < self.players.entries.len()
            invariant
                i <= es.len(),
                es == self.players.entries@,
                self.players == old(self).players,
                self.msg == old(self).msg,
                self.msg_type@ == if has_member(es.take(i as int), group@) {
                    "group"@
                } else {
                    old(self).msg_type@
                },
                self.ps == old(self).ps,
                before == action_views(old(self).out@),
                action_views(self.out@) == before + deliver_group(es.take(i as int), group@, view@),
            decreases es.len() - i,
        {
            let ghost t = es.take(i + 1);
            assert(t.drop_last() =~= es.take(i as int));
            assert(t.last() == es[i as int]);
            assert(has_member(t, group@) == (has_member(es.take(i as int), group@)
                || es[i as int].1.group_name@ == group@)) by {
                if has_member(es.take(i as int), group@) {
                    let k = choose|k: int| 0 <= k < i && es.take(i as int)[k].1.group_name@ == group@;
                    assert(t[k] == es.take(i as int)[k]);
                }
                if has_member(t, group@) {
                    let k = choose|k: int| 0 <= k < t.len() && t[k].1.group_name@ == group@;
                    if k < i {
                        assert(es.take(i as int)[k] == t[k]);
                    }
                }
                if es[i as int].1.group_name@ == group@ {
                    assert(t[i as int] == es[i as int]);
                }
            }
            if str_eq(self.players.entries[i].1.group_name.as_str(), group) {
                let a = self.players.entries[i].0;
                self.msg_type = String::from_str("group");
                proof {
                    reveal_strlit("group");
                }
                self.deliver_to(a, view);
            }
            i += 1;
        }
        assert(es.take(es.len() as int) =~= es);
    }

    /// Where the first entry on line for a player named `name` stands, if there is one.
    fn first_on_line(&self, name: &str) -> (r: Option<usize>)
        ensures
            match r {
                Some(i) => first_named_at(self.players.entries@, name@, i as int),
                None => !has_named(self.players.entries@, name@),
            },
    {
        let es = &self.players.entries;
        let mut i: usize = 0;
        while i < es.len()
            invariant
                es == &self.players.entries,
                i <= es@.len(),
                forall|j: int| 0 <= j < i ==> es@[j].1.name@ != name@,
            decreases es@.len() - i,
        {
            if str_eq(es[i].1.name.as_str(), name) {
                return Some(i);
            }
            i += 1;
        }
        None
    }
}

/// Whether some registered player is named `name`.
fn any_named(ps: &Vec<Player>, name: &str) -> (b: bool)
    ensures
        b == exists|i: int| 0 <= i < ps@.len() && ps@[i].name@ == name@,
{
    let mut i: usize = 0;
    while i < ps.len()
        invariant
            i <= ps@.len(),
            forall|j: int| 0 <= j < i ==> ps@[j].name@ != name@,
        decreases ps@.len() - i,
    {
        if str_eq(ps[i].name.as_str(), name) {
            return true;
        }
        i += 1;
    }
    false
}

impl<'a> Command for ChatCommand<'a> {
    /// What the command needs of the players on line.
    open spec fn ready(&self) -> bool {
        &&& split(self.msg.content@, seq![' ']).len() > 1 ==> player_at(
            self.players.entries@,
            self.msg.addr,
        ) is Some
    }

    /// What a run of the command does, answering `r`.
    open spec fn ran(&self, after: &Self, r: Seq<char>) -> bool {
        &&& after.players == self.players
        &&& after.msg == self.msg
        &&& chat_outcome(
            self.players.entries@,
            self.ps@,
            self.msg@,
            action_views(self.out@),
            action_views(after.out@),
            r,
            after.ps@,
            self.msg_type@,
            after.msg_type@,
        )
    }

    /// Chats (see `chat_outcome`); the registered players are narrowed to the group named.
    fn execute(&mut self) -> (r: String)
    {
        let ghost before = action_views(self.out@);
        let ghost es = self.players.entries@;
        let addr = self.msg.addr;
        proof {
            reveal_strlit(" ");
            reveal_strlit("");
            assert(" "@ =~= seq![' ']);
            assert(""@ =~= Seq::<char>::empty());
            crate::text::lemma_split_nonempty(self.msg.content@, seq![' ']);
        }
        let words = split_str(self.msg.content.as_str(), " ");
        if words.len() <= 1 {
            self.out.push(Action::Send(wrap_message(addr, String::from_str("要chat什么？"))));
            assert(action_views(self.out@) =~= before.push(say(addr, "要chat什么？"@)));
            return String::from_str("no content");
        }
        assert(views(words@)[0] == words@[0]@);
        let para0 = words[0].as_str();
        let para1 = word_or_exec(self.msg.content.as_str(), 1, "");
        let player = match self.players.get(addr) {
            Some(a) => a,
            None => {
                return String::new();
            },
        };
        if str_eq(player.name.as_str(), para1.as_str()) {
            self.out.push(Action::Send(wrap_message(addr, String::from_str("自己不能和自己聊天"))));
            assert(action_views(self.out@) =~= before.push(say(addr, "自己不能和自己聊天"@)));
            return String::from_str("no content");
        }
        let named = any_named(&self.ps, para1.as_str());
        self.keep_group(para1.as_str());
        let after_word = trim_ws_str(trim_start_str_exec(self.msg.content.as_str(), para0).as_str());
        if !named && self.ps.len() == 0 {
            let mut view = String::from_str("【世界】");
            view.append(player.fullname.as_str());
            view.append("(");
            view.append(player.name.as_str());
            view.append(")");
            view.append(": ");
            view.append(after_word.as_str());
            self.msg_type = String::from_str("world");
            proof {
                reveal_strlit("world");
            }
            self.deliver_world(view.as_str());
            return String::from_str("world");
        }
        let after_name = trim_ws_str(trim_start_str_exec(after_word.as_str(), para1.as_str()).as_str());
        if self.ps.len() != 0 {
            let mut view = String::from_str("【同盟】");
            view.append(player.fullname.as_str());
            view.append("(");
            view.append(player.name.as_str());
            view.append(")");
            view.append(": ");
            view.append(after_name.as_str());
            self.deliver_to_group(para1.as_str(), view.as_str());
            return String::from_str("group");
        }
        let found = self.first_on_line(para1.as_str());
        let k = match found {
            Some(k) => k,
            None => {
                let mut view = para1.clone();
                view.append("现在未上线");
                self.out.push(Action::Send(wrap_message(addr, view)));
                assert(action_views(self.out@) =~= before.push(say(addr, para1@ + "现在未上线"@)));
                return String::from_str("no content");
            },
        };
        if words.len() <= 2 {
            let mut view = String::from_str("要对");
            view.append(para1.as_str());
            view.append("说什么？");
            self.out.push(Action::Send(wrap_message(addr, view)));
            assert(action_views(self.out@) =~= before.push(say(addr, "要对"@ + para1@ + "说什么？"@)));
            return String::from_str("no content");
        }
        proof {
            let c = choose|i: int| first_named_at(es, para1@, i);
            assert(first_named_at(es, para1@, k as int));
            if c < k {
                assert(es[c].1.name@ != para1@);
            }
            if c > k {
                assert(es[k as int].1.name@ != para1@);
            }
            assert(c == k);
        }
        let to_addr = self.players.entries[k].0;
        let to = &self.players.entries[k].1;
        let mut view = String::from_str("【私聊】");
        view.append("来自");
        view.append(player.fullname.as_str());
        view.append("(");
        view.append(player.name.as_str());
        view.append(")的消息: ");
        view.append(after_name.as_str());
        self.msg_type = String::from_str("friend");
        proof {
            reveal_strlit("friend");
        }
        let ghost mid = action_views(self.out@);
        self.deliver_to(to_addr, view.as_str());
        let mut back = String::from_str("【私聊】");
        back.append("发送给");
        back.append(to.name.as_str());
        back.append("的消息: ");
        back.append(after_name.as_str());
        self.deliver_to(addr, back.as_str());
        self.msg.content.clone()
    }
}

}
