use std::collections::HashMap;
use vstd::prelude::*;
use vstd::string::*;

use crate::command::Command;
use crate::action::{
    action_views, file_reply, others_names, others_text, say, Action, ActionView, FileReply,
    Render, RenderView,
};
use crate::channel::{made, wrap_message, wrap_message_climb, Message, MessageType, MessageView};
use crate::map::{Node, NodeView};
use crate::player::{player_at, Player, PlayerTable};
use crate::text::{int_text, lower, replace, replace_exec, str_eq, to_lower, u64_text, word_or, word_or_exec};
use crate::text_map::TextMap;
use crate::utils::get_id;

verus! {

broadcast use {vstd::string::group_string_axioms, vstd::std_specs::hash::group_hash_axioms};

/// The lasting actions: `climb`, `knock`, `open`.
pub struct ClimbCommand<'a> {
    pub players: &'a PlayerTable,
    pub msg: &'a Message,
    pub nodes: &'a HashMap<u32, Node>,
    pub next_id: usize,
    pub out: Vec<Action>,
}

/// The counter after handing out one identifier.
pub open spec fn bump(id: usize) -> usize {
    if id == usize::MAX {
        0
    } else {
        (id + 1) as usize
    }
}

/// The text a table gives for a key, or empty.
pub open spec fn text_or_empty(m: Map<Seq<char>, Seq<char>>, k: Seq<char>) -> Seq<char> {
    if m.contains_key(k) {
        m[k]
    } else {
        seq![]
    }
}

/// The timer started for a lasting action: three beats of the command line.
pub open spec fn action_timer(msg: MessageView, id: usize) -> ActionView {
    ActionView::Combat(made(MessageType::CombatStart, msg.addr, msg.content, int_text(id as int), 3))
}

/// What `climb` does. Without a known target the player is asked where to climb. At the
/// start (no third word) the player sees the climb and a timer starts (`pending 1`); while it
/// runs (`continue`) the player sees it again (`pending 1`). When it stops the player sees the
/// finish, if the place has one; any other third word skips that. Then the player arrives at
/// the place's destination and sees it with the other players there (`pending 0 destpos`
/// and the destination), unless the destination is not on the map (`no map!`).
pub open spec fn climb_outcome(
    es: Seq<(u64, Player)>,
    nodes: Map<u32, Node>,
    p: Player,
    node: NodeView,
    msg: MessageView,
    id: usize,
    before: Seq<ActionView>,
    after: Seq<ActionView>,
    ret: Seq<char>,
    id_after: usize,
) -> bool {
    let cmd = word_or(msg.content, 1, seq![]);
    let action = word_or(msg.content, 2, "0"@);
    let view = text_or_empty(node.climbat, cmd);
    let addr = msg.addr;
    if cmd.len() == 0 || view.len() == 0 {
        &&& ret == Seq::<char>::empty()
        &&& after == before.push(say(addr, "要爬到哪里去？试一下climb up"@))
        &&& id_after == id
    } else if action == "0"@ {
        &&& ret == "pending 1"@
        &&& after == before + seq![say(addr, view + "@@@"@), action_timer(msg, id)]
        &&& id_after == bump(id)
    } else if action == "continue"@ {
        &&& ret == "pending 1"@
        &&& after == before.push(say(addr, view + "@@@"@))
        &&& id_after == id
    } else {
        let done = text_or_empty(node.climbat, cmd + "done"@);
        let finish = if action == "stop"@ && done.len() != 0 {
            seq![say(addr, done)]
        } else {
            seq![]
        };
        &&& id_after == id
        &&& if nodes.contains_key(node.destpos) {
            &&& ret == "pending 0 destpos "@ + int_text(node.destpos as int)
            &&& after == before + finish + seq![
                file_reply(
                    addr,
                    nodes[node.destpos]@.look,
                    RenderView::Plain,
                    others_text(es, p.name@, node.destpos),
                ),
            ]
        } else {
            &&& ret == "no map!"@
            &&& after == before + finish
        }
    }
}

/// What `knock` and `open` do, given the place's table of things, the player's state for the
/// action, the question asked without a target, and the answer's first word. Without a known
/// target and in state 0 the player is asked what to act on. At the start the player sees the
/// action (written `\n` made line breaks) and a timer starts (`<word> 1`); while it runs
/// nothing more happens (`<word> 1`). When it stops the player sees the finish, if there is
/// one; in every case but the start and running the answer is `<word> 0`.
pub open spec fn knock_outcome(
    table: Map<Seq<char>, Seq<char>>,
    state: u32,
    ask: Seq<char>,
    word: Seq<char>,
    msg: MessageView,
    id: usize,
    before: Seq<ActionView>,
    after: Seq<ActionView>,
    ret: Seq<char>,
    id_after: usize,
) -> bool {
    let cmd = word_or(msg.content, 1, seq![]);
    let action = word_or(msg.content, 2, "0"@);
    let view = text_or_empty(table, cmd);
    let addr = msg.addr;
    if (cmd.len() == 0 || view.len() == 0) && state == 0 {
        &&& ret == Seq::<char>::empty()
        &&& after == before.push(say(addr, ask))
        &&& id_after == id
    } else if action == "0"@ {
        &&& ret == word + " 1"@
        &&& after == before + seq![
            say(addr, replace(view + "@@@"@, "\\n"@, "\n"@)),
            action_timer(msg, id),
        ]
        &&& id_after == bump(id)
    } else if action == "continue"@ {
        &&& ret == word + " 1"@
        &&& after == before
        &&& id_after == id
    } else {
        let done = text_or_empty(table, cmd + "done"@);
        &&& ret == word + " 0"@
        &&& after == before + if action == "stop"@ && done.len() != 0 {
            seq![say(addr, replace(done, "\\n"@, "\n"@))]
        } else {
            seq![]
        }
        &&& id_after == id
    }
}

/// The text a table gives for a key, or empty.
fn text_or_empty_exec(m: &TextMap, k: &str) -> (r: String)
    ensures
        r@ == text_or_empty(m@, k@),
{
    match m.get(k) {
        Some(v) => v.clone(),
        None => String::new(),
    }
}

impl<'a> ClimbCommand<'a> {
    /// A command reading `msg` against the players on line and the map, handing out timer
    /// identifiers from `next_id`.
    pub fn new(
        players: &'a PlayerTable,
        msg: &'a Message,
        nodes: &'a HashMap<u32, Node>,
        next_id: usize,
    ) -> (r: Self)
        ensures
            r.players == players,
            r.msg == msg,
            r.nodes == nodes,
            r.next_id == next_id,
            r.out@ == Seq::<Action>::empty(),
    {
        ClimbCommand { players, msg, nodes, next_id, out: Vec::new() }
    }

    /// Starts the timer of a lasting action.
    fn start_timer(&mut self)
        ensures
            final(self).players == old(self).players,
            final(self).msg == old(self).msg,
            final(self).nodes == old(self).nodes,
            final(self).next_id == bump(old(self).next_id),
            action_views(final(self).out@) == action_views(old(self).out@).push(
                action_timer(old(self).msg@, old(self).next_id),
            ),
    {
        let timer_id = get_id(&mut self.next_id);
        let id = u64_text(timer_id as u64);
        let m = wrap_message_climb(
            MessageType::CombatStart,
            self.msg.addr,
            self.msg.content.clone(),
            id,
            3,
        );
        let ghost before = action_views(self.out@);
        self.out.push(Action::Combat(m));
        assert(action_views(self.out@) =~= before.push(action_timer(old(self).msg@, old(self).next_id)));
    }

    /// Climbs (see `climb_outcome`).
    pub fn do_climb(&mut self, player: &Player, node: &Node) -> (r: String)
        ensures
            final(self).players == old(self).players,
            final(self).msg == old(self).msg,
            final(self).nodes == old(self).nodes,
            climb_outcome(
                old(self).players.entries@,
                old(self).nodes@,
                *player,
                node@,
                old(self).msg@,
                old(self).next_id,
                action_views(old(self).out@),
                action_views(final(self).out@),
                r@,
                final(self).next_id,
            ),
    {
        let ghost before = action_views(self.out@);
        proof {
            reveal_strlit("");
            assert(""@ =~= Seq::<char>::empty());
        }
        let addr = self.msg.addr;
        let cmd = word_or_exec(self.msg.content.as_str(), 1, "");
        let action = word_or_exec(self.msg.content.as_str(), 2, "0");
        let view = text_or_empty_exec(&node.climbat, cmd.as_str());
        if cmd.unicode_len() == 0 || view.unicode_len() == 0 {
            let m = wrap_message(addr, String::from_str("要爬到哪里去？试一下climb up"));
            self.out.push(Action::Send(m));
            assert(action_views(self.out@) =~= before.push(say(addr, "要爬到哪里去？试一下climb up"@)));
            return String::new();
        }
        let mut shown = view.clone();
        shown.append("@@@");
        if str_eq(action.as_str(), "0") {
            let m = wrap_message(addr, shown);
            self.out.push(Action::Send(m));
            self.start_timer();
            assert(action_views(self.out@) =~= before + seq![say(addr, view@ + "@@@"@), action_timer(old(self).msg@, old(self).next_id)]);
            return String::from_str("pending 1");
        } else if str_eq(action.as_str(), "continue") {
            let m = wrap_message(addr, shown);
            self.out.push(Action::Send(m));
            assert(action_views(self.out@) =~= before.push(say(addr, view@ + "@@@"@)));
            return String::from_str("pending 1");
        }
        let mut param = cmd.clone();
        param.append("done");
        let done = text_or_empty_exec(&node.climbat, param.as_str());
        if str_eq(action.as_str(), "stop") && done.unicode_len() != 0 {
            let m = wrap_message(addr, done);
            self.out.push(Action::Send(m));
        }
        let ghost finish = if action@ == "stop"@ && text_or_empty(node@.climbat, cmd@ + "done"@).len() != 0 {
            seq![say(addr, text_or_empty(node@.climbat, cmd@ + "done"@))]
        } else {
            seq![]
        };
        assert(action_views(self.out@) =~= before + finish);
        let dest_pos = node.destpos;
        let dest = match self.nodes.get(&dest_pos) {
            Some(a) => a,
            None => {
                return String::from_str("no map!");
            },
        };
        let names = others_names(&self.players.entries, player.name.as_str(), dest_pos);
        let reply = FileReply { addr, path: dest.look.clone(), render: Render::Plain, suffix: names };
        self.out.push(Action::SendFile(reply));
        assert(action_views(self.out@) =~= before + finish + seq![
            file_reply(addr, dest@.look, RenderView::Plain, others_text(old(self).players.entries@, player.name@, dest_pos)),
        ]);
        let mut ret = String::from_str("pending 0 destpos ");
        let pos_text = u64_text(dest_pos as u64);
        ret.append(pos_text.as_str());
        ret
    }

    /// The shared course of `knock` and `open` (see `knock_outcome`).
    fn knock_like(&mut self, table: &TextMap, state: u32, ask: &str, word: &str) -> (r: String)
        ensures
            final(self).players == old(self).players,
            final(self).msg == old(self).msg,
            final(self).nodes == old(self).nodes,
            knock_outcome(
                table@,
                state,
                ask@,
                word@,
                old(self).msg@,
                old(self).next_id,
                action_views(old(self).out@),
                action_views(final(self).out@),
                r@,
                final(self).next_id,
            ),
    {
        let ghost before = action_views(self.out@);
        proof {
            reveal_strlit("");
            assert(""@ =~= Seq::<char>::empty());
        }
        let addr = self.msg.addr;
        let cmd = word_or_exec(self.msg.content.as_str(), 1, "");
        let action = word_or_exec(self.msg.content.as_str(), 2, "0");
        let view = text_or_empty_exec(table, cmd.as_str());
        if (cmd.unicode_len() == 0 || view.unicode_len() == 0) && state == 0 {
            let m = wrap_message(addr, String::from_str(ask));
            self.out.push(Action::Send(m));
            assert(action_views(self.out@) =~= before.push(say(addr, ask@)));
            return String::new();
        }
        let mut shown = view.clone();
        shown.append("@@@");
        if str_eq(action.as_str(), "0") {
            let text = replace_exec(shown.as_str(), "\\n", "\n");
            let m = wrap_message(addr, text);
            self.out.push(Action::Send(m));
            self.start_timer();
            assert(action_views(self.out@) =~= before + seq![
                say(addr, replace(view@ + "@@@"@, "\\n"@, "\n"@)),
                action_timer(old(self).msg@, old(self).next_id),
            ]);
            let mut ret = String::from_str(word);
            ret.append(" 1");
            return ret;
        } else if str_eq(action.as_str(), "continue") {
            let mut ret = String::from_str(word);
            ret.append(" 1");
            return ret;
        }
        let mut param = cmd.clone();
        param.append("done");
        let done = text_or_empty_exec(table, param.as_str());
        if str_eq(action.as_str(), "stop") && done.unicode_len() != 0 {
            let text = replace_exec(done.as_str(), "\\n", "\n");
            let m = wrap_message(addr, text);
            self.out.push(Action::Send(m));
        }
        assert(action_views(self.out@) =~= before + if action@ == "stop"@ && text_or_empty(table@, cmd@ + "done"@).len() != 0 {
            seq![say(addr, replace(text_or_empty(table@, cmd@ + "done"@), "\\n"@, "\n"@))]
        } else {
            seq![]
        });
        let mut ret = String::from_str(word);
        ret.append(" 0");
        ret
    }

    /// Knocks (see `knock_outcome`, with the place's knockable things and the player's
    /// knocked state).
    pub fn do_knock(&mut self, player: &Player, node: &Node) -> (r: String)
        ensures
            final(self).players == old(self).players,
            final(self).msg == old(self).msg,
            final(self).nodes == old(self).nodes,
            knock_outcome(
                node@.knockat,
                player.knocked,
                "要敲什么？试一下knock gate"@,
                "knocked"@,
                old(self).msg@,
                old(self).next_id,
                action_views(old(self).out@),
                action_views(final(self).out@),
                r@,
                final(self).next_id,
            ),
    {
        self.knock_like(&node.knockat, player.knocked, "要敲什么？试一下knock gate", "knocked")
    }

    /// Opens (see `knock_outcome`, with the place's openable things and the player's opened
    /// state).
    pub fn do_open(&mut self, player: &Player, node: &Node) -> (r: String)
        ensures
            final(self).players == old(self).players,
            final(self).msg == old(self).msg,
            final(self).nodes == old(self).nodes,
            knock_outcome(
                node@.openat,
                player.opened,
                "要打开什么？试一下open gate"@,
                "opened"@,
                old(self).msg@,
                old(self).next_id,
                action_views(old(self).out@),
                action_views(final(self).out@),
                r@,
                final(self).next_id,
            ),
    {
        self.knock_like(&node.openat, player.opened, "要打开什么？试一下open gate", "opened")
    }

}

/// What the lasting actions do, by command word (see `climb_outcome`, `knock_outcome`).
pub open spec fn climb_command_outcome(
    es: Seq<(u64, Player)>,
    nodes: Map<u32, Node>,
    msg: MessageView,
    id: usize,
    before: Seq<ActionView>,
    after: Seq<ActionView>,
    ret: Seq<char>,
    id_after: usize,
) -> bool {
    let p = player_at(es, msg.addr).unwrap();
    let key = lower(word_or(msg.content, 0, "none"@));
    if !nodes.contains_key(p.pos) {
        ret == "no map!"@ && after == before && id_after == id
    } else {
        let node = nodes[p.pos]@;
        if key == "climb"@ {
            climb_outcome(es, nodes, p, node, msg, id, before, after, ret, id_after)
        } else if key == "knock"@ {
            knock_outcome(node.knockat, p.knocked, "要敲什么？试一下knock gate"@, "knocked"@, msg, id, before, after, ret, id_after)
        } else if key == "open"@ {
            knock_outcome(node.openat, p.opened, "要打开什么？试一下open gate"@, "opened"@, msg, id, before, after, ret, id_after)
        } else {
            ret == "ok"@ && after == before && id_after == id
        }
    }
}

impl<'a> Command for ClimbCommand<'a> {
    /// What the command needs of the players on line.
    open spec fn ready(&self) -> bool {
        &&& player_at(self.players.entries@, self.msg.addr) is Some
    }

    /// What a run of the command does, answering `r`.
    open spec fn ran(&self, after: &Self, r: Seq<char>) -> bool {
        &&& after.players == self.players
        &&& after.msg == self.msg
        &&& after.nodes == self.nodes
        &&& climb_command_outcome(
            self.players.entries@,
            self.nodes@,
            self.msg@,
            self.next_id,
            action_views(self.out@),
            action_views(after.out@),
            r,
            after.next_id,
        )
    }

    /// Runs `climb`, `knock` or `open` (in any letter case) at the player's place; the answer
    /// is `no map!` when the place is not on the map and `ok` for other words.
    fn execute(&mut self) -> (r: String)
    {
        let player = match self.players.get(self.msg.addr) {
            Some(p) => p,
            None => {
                return String::new();
            },
        };
        let node = match self.nodes.get(&player.pos) {
            Some(a) => a,
            None => {
                return String::from_str("no map!");
            },
        };
        let first = word_or_exec(self.msg.content.as_str(), 0, "none");
        let cmd = to_lower(first.as_str());
        let c = cmd.as_str();
        if str_eq(c, "climb") {
            self.do_climb(player, node)
        } else if str_eq(c, "knock") {
            self.do_knock(player, node)
        } else if str_eq(c, "open") {
            self.do_open(player, node)
        } else {
            String::from_str("ok")
        }
    }
}

}
