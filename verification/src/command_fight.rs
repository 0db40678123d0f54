use vstd::prelude::*;
use vstd::string::*;

use crate::command::Command;
use crate::action::{action_views, say, Action, ActionView};
use crate::channel::{timer_msg, wrap_message, wrap_message_timer, Message, MessageType, MessageView};
use crate::command_climb::bump;
use crate::player::{player_at, Player, PlayerTable};
use crate::text::{
    i64_text, int_text, parse_usize, parse_usize_exec, split, str_eq, u64_text, word_or,
    word_or_exec,
};
use crate::utils::get_id;

verus! {

broadcast use vstd::string::group_string_axioms;

/// The `fight` command.
pub struct FightCommand<'a> {
    pub players: &'a PlayerTable,
    pub msg: &'a Message,
    pub next_id: usize,
    pub out: Vec<Action>,
}

/// Whether some player named `name` stands at `pos`.
pub open spec fn present_at(es: Seq<(u64, Player)>, name: Seq<char>, pos: u32) -> bool {
    exists|i: int| 0 <= i < es.len() && es[i].1.name@ == name && es[i].1.pos == pos
}

/// The position of the last player named `name`.
pub open spec fn last_named(es: Seq<(u64, Player)>, name: Seq<char>) -> Option<int>
    decreases es.len(),
{
    if es.len() == 0 {
        None
    } else if es.last().1.name@ == name {
        Some(es.len() - 1)
    } else {
        last_named(es.drop_last(), name)
    }
}

/// The last entry for a player named `name` (meaningful when there is one).
pub open spec fn named_entry(es: Seq<(u64, Player)>, name: Seq<char>) -> (u64, Player) {
    es[last_named(es, name).unwrap()]
}

/// Whether a `fight` reaches the blows with both players' health high enough to take them.
pub open spec fn fight_safe(es: Seq<(u64, Player)>, msg: MessageView) -> bool {
    let p = player_at(es, msg.addr).unwrap();
    let opponent = word_or(msg.content, 1, seq![]);
    (player_at(es, msg.addr) is Some && split(msg.content, seq![' ']).len() > 1 && p.name@
        != opponent && present_at(es, opponent, p.pos)) ==> {
        &&& p.hp >= i32::MIN + 3
        &&& named_entry(es, opponent).1.hp >= i32::MIN + 7
    }
}

/// The combat timer a fight round reports: a new one (`id`) at the start, else the one the
/// message carries (0 when it carries none that can be read).
pub open spec fn fight_timer(msg: MessageView, id: usize) -> int {
    if word_or(msg.content, 2, "0"@) == "0"@ {
        id as int
    } else {
        match parse_usize(msg.timer_id) {
            Some(v) => v,
            None => 0,
        }
    }
}

/// The challenge shouted at an opponent.
pub open spec fn challenge_text() -> Seq<char> {
    "吼道：「畜生！你死期已到，今天就让小爷我送你上西天吧！」"@
}

/// What `fight <name> [action]` does. Without a player or a name it answers `none` or `no`.
/// A player cannot fight themself, nor someone not at the same place. Otherwise, at the
/// start (no action) both sides hear the challenge and a combat timer starts with a new
/// identifier; later rounds tell both how the fight goes. The answer is `fight`, the
/// opponent, both sides' health after the blow (3 and 7 less) and the timer identifier.
pub open spec fn fight_outcome(
    es: Seq<(u64, Player)>,
    msg: MessageView,
    id: usize,
    before: Seq<ActionView>,
    after: Seq<ActionView>,
    ret: Seq<char>,
    id_after: usize,
) -> bool {
    let addr = msg.addr;
    let words = split(msg.content, seq![' ']);
    let opponent = word_or(msg.content, 1, seq![]);
    if player_at(es, addr) is None {
        ret == "none"@ && after == before && id_after == id
    } else if words.len() <= 1 {
        ret == "no"@ && after == before && id_after == id
    } else {
        let p = player_at(es, addr).unwrap();
        if p.name@ == opponent {
            &&& ret == "deny fight yourself"@
            &&& after == before.push(say(addr, "自己不能fight自己"@))
            &&& id_after == id
        } else if !present_at(es, opponent, p.pos) {
            &&& ret == "fight who?"@
            &&& after == before.push(say(addr, "你要fight谁?"@))
            &&& id_after == id
        } else {
            let action = word_or(msg.content, 2, "0"@);
            let (o_addr, o) = named_entry(es, opponent);
            let timer = fight_timer(msg, id);
            &&& ret == "fight "@ + opponent + " "@ + int_text(p.hp - 3) + " "@ + int_text(o.hp - 7)
                + " "@ + int_text(timer)
            &&& if action == "0"@ {
                &&& after == before + seq![
                    say(addr, "你对着"@ + o.name@ + challenge_text()),
                    say(o_addr, p.name@ + "对着你"@ + challenge_text()),
                    ActionView::Combat(
                        timer_msg(MessageType::CombatStart, addr, msg.content, int_text(id as int)),
                    ),
                ]
                &&& id_after == bump(id)
            } else {
                &&& after == before + seq![
                    say(addr, "你对着"@ + o.name@ + "你在攻击中不断积蓄攻势。(气势：8%)"@),
                    say(o_addr, p.name@ + "( 野兔动作似乎开始有点不太灵光，但是仍然有条不紊。 )"@),
                ]
                &&& id_after == id
            }
        }
    }
}

/// Whether a `fight` can be run (see `fight_safe`).
pub fn fight_safe_exec(players: &PlayerTable, msg: &Message) -> (b: bool)
    ensures
        b == fight_safe(players.entries@, msg@),
{
    let addr = msg.addr;
    let player = match players.get(addr) {
        Some(p) => p,
        None => {
            return true;
        },
    };
    proof {
        reveal_strlit(" ");
        reveal_strlit("");
        assert(" "@ =~= seq![' ']);
        assert(""@ =~= Seq::<char>::empty());
    }
    let words = crate::text::split_str(msg.content.as_str(), " ");
    if words.len() <= 1 {
        return true;
    }
    let opponent = word_or_exec(msg.content.as_str(), 1, "");
    if str_eq(player.name.as_str(), opponent.as_str()) {
        return true;
    }
    let es = &players.entries;
    let mut present = false;
    let mut found: usize = 0;
    let mut i: usize = 0;
    while i < es.len()
        invariant
            es == &players.entries,
            i <= es@.len(),
            present == (exists|j: int|
                0 <= j < i && es@[j].1.name@ == opponent@ && es@[j].1.pos == player.pos),
            present ==> found < i,
            last_named(es@.take(i as int), opponent@) == if exists|j: int| 0 <= j < i && es@[j].1.name@ == opponent@ {
                Some(found as int)
            } else {
                None::<int>
            },
        decreases es@.len() - i,
    {
        assert(es@.take(i + 1).drop_last() =~= es@.take(i as int));
        assert(es@.take(i + 1).last() == es@[i as int]);
        if str_eq(es[i].1.name.as_str(), opponent.as_str()) {
            found = i;
            if es[i].1.pos == player.pos {
                present = true;
            }
        }
        i += 1;
    }
    assert(es@.take(es@.len() as int) =~= es@);
    if !present {
        return true;
    }
    player.hp >= i32::MIN + 3 && es[found].1.hp >= i32::MIN + 7
}

impl<'a> FightCommand<'a> {
    /// A command reading `msg` against the players on line, handing out timer identifiers
    /// from `next_id`.
    pub fn new(players: &'a PlayerTable, msg: &'a Message, next_id: usize) -> (r: Self)
        ensures
            r.players == players,
            r.msg == msg,
            r.next_id == next_id,
            r.out@ == Seq::<Action>::empty(),
    {
        FightCommand { players, msg, next_id, out: Vec::new() }
    }

}

impl<'a> Command for FightCommand<'a> {
    /// What the command needs of the players on line.
    open spec fn ready(&self) -> bool {
        &&& fight_safe(self.players.entries@, self.msg@)
    }

    /// What a run of the command does, answering `r`.
    open spec fn ran(&self, after: &Self, r: Seq<char>) -> bool {
        &&& after.players == self.players
        &&& after.msg == self.msg
        &&& fight_outcome(
            self.players.entries@,
            self.msg@,
            self.next_id,
            action_views(self.out@),
            action_views(after.out@),
            r,
            after.next_id,
        )
    }

    /// Fights (see `fight_outcome`).
    fn execute(&mut self) -> (r: String)
    {
        let ghost before = action_views(self.out@);
        let addr = self.msg.addr;
        let player = match self.players.get(addr) {
            Some(a) => a,
            None => {
                return String::from_str("none");
            },
        };
        proof {
            reveal_strlit(" ");
            reveal_strlit("");
            assert(" "@ =~= seq![' ']);
            assert(""@ =~= Seq::<char>::empty());
        }
        let words = crate::text::split_str(self.msg.content.as_str(), " ");
        if words.len() <= 1 {
            return String::from_str("no");
        }
        let opponent = word_or_exec(self.msg.content.as_str(), 1, "");
        if str_eq(player.name.as_str(), opponent.as_str()) {
            let m = wrap_message(addr, String::from_str("自己不能fight自己"));
            self.out.push(Action::Send(m));
            assert(action_views(self.out@) =~= before.push(say(addr, "自己不能fight自己"@)));
            return String::from_str("deny fight yourself");
        }
        let es = &self.players.entries;
        let mut present = false;
        let mut found: usize = 0;
        let mut i: usize = 0;
        while i < es.len()
            invariant
                es == &old(self).players.entries,
                i <= es@.len(),
                present == (exists|j: int|
                    0 <= j < i && es@[j].1.name@ == opponent@ && es@[j].1.pos == player.pos),
                present ==> found < i,
                last_named(es@.take(i as int), opponent@) == if exists|j: int| 0 <= j < i && es@[j].1.name@ == opponent@ {
                    Some(found as int)
                } else {
                    None::<int>
                },
            decreases es@.len() - i,
        {
            assert(es@.take(i + 1).drop_last() =~= es@.take(i as int));
            assert(es@.take(i + 1).last() == es@[i as int]);
            if str_eq(es[i].1.name.as_str(), opponent.as_str()) {
                found = i;
                if es[i].1.pos == player.pos {
                    present = true;
                }
            }
            i += 1;
        }
        assert(es@.take(es@.len() as int) =~= es@);
        if !present {
            let m = wrap_message(addr, String::from_str("你要fight谁?"));
            self.out.push(Action::Send(m));
            assert(action_views(self.out@) =~= before.push(say(addr, "你要fight谁?"@)));
            return String::from_str("fight who?");
        }
        let action = word_or_exec(self.msg.content.as_str(), 2, "0");
        let o_addr = es[found].0;
        let o_player = &es[found].1;
        let p_hp = player.hp - 3;
        let o_hp = o_player.hp - 7;
        let mut timer_id: usize = match parse_usize_exec(self.msg.timer_id.as_str()) {
            Some(a) => a,
            None => 0,
        };
        if str_eq(action.as_str(), "0") {
            let mut shout = String::from_str("你对着");
            shout.append(o_player.name.as_str());
            shout.append("吼道：「畜生！你死期已到，今天就让小爷我送你上西天吧！」");
            self.out.push(Action::Send(wrap_message(addr, shout)));
            let mut heard = player.name.clone();
            heard.append("对着你");
            heard.append("吼道：「畜生！你死期已到，今天就让小爷我送你上西天吧！」");
            self.out.push(Action::Send(wrap_message(o_addr, heard)));
            timer_id = get_id(&mut self.next_id);
            let id_text = u64_text(timer_id as u64);
            let m = wrap_message_timer(
                MessageType::CombatStart,
                addr,
                self.msg.content.clone(),
                id_text,
            );
            self.out.push(Action::Combat(m));
            assert(action_views(self.out@) =~= before + seq![
                say(addr, "你对着"@ + o_player.name@ + challenge_text()),
                say(o_addr, player.name@ + "对着你"@ + challenge_text()),
                ActionView::Combat(
                    timer_msg(MessageType::CombatStart, addr, old(self).msg.content@, int_text(old(self).next_id as int)),
                ),
            ]);
        } else {
            let mut shout = String::from_str("你对着");
            shout.append(o_player.name.as_str());
            shout.append("你在攻击中不断积蓄攻势。(气势：8%)");
            self.out.push(Action::Send(wrap_message(addr, shout)));
            let mut heard = player.name.clone();
            heard.append("( 野兔动作似乎开始有点不太灵光，但是仍然有条不紊。 )");
            self.out.push(Action::Send(wrap_message(o_addr, heard)));
            assert(action_views(self.out@) =~= before + seq![
                say(addr, "你对着"@ + o_player.name@ + "你在攻击中不断积蓄攻势。(气势：8%)"@),
                say(o_addr, player.name@ + "( 野兔动作似乎开始有点不太灵光，但是仍然有条不紊。 )"@),
            ]);
        }
        let mut ret = String::from_str("fight ");
        ret.append(opponent.as_str());
        ret.append(" ");
        let t1 = i64_text(p_hp as i64);
        ret.append(t1.as_str());
        ret.append(" ");
        let t2 = i64_text(o_hp as i64);
        ret.append(t2.as_str());
        ret.append(" ");
        let t3 = u64_text(timer_id as u64);
        ret.append(t3.as_str());
        ret
    }
}

}
