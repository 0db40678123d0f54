use vstd::prelude::*;
use vstd::string::*;

use crate::command::Command;
use crate::action::{action_views, say, send, Action, ActionView};
use crate::channel::{
    ext_msg, wrap_message, wrap_message_ext, wrap_message_raw, Message, MessageType, MessageView,
};
use crate::player::{player_at, Player, PlayerTable};
use crate::text::{i64_text, int_text, lower, to_lower, str_eq, u64_text};
use crate::utils::{colored, show_color, Color};

verus! {

broadcast use vstd::string::group_string_axioms;

/// The `hp` and `who` commands.
pub struct HpCommand<'a> {
    pub players: &'a PlayerTable,
    pub msg: &'a Message,
    pub out: Vec<Action>,
}

/// The status frame `hp` shows a player.
pub open spec fn hp_frame(p: Player) -> Seq<char> {
    "\n    ┌─── "@ + colored(p.name@, Color::YELLOW) + "状态────────────\n     【气血】 "@ + colored(int_text(p.mp as int), Color::YELLOW) + "     / "@ + colored(int_text(p.max_mp as int), Color::YELLOW) + "      [100%]     \n     【法力】 "@ + colored(int_text(p.hp as int), Color::YELLOW) + "     / "@ + colored(int_text(p.max_hp as int), Color::YELLOW) + "      [100%]     \n     【信心】 "@ + colored(int_text(p.fp as int), Color::YELLOW) + "     / "@ + colored(int_text(p.max_fp as int), Color::YELLOW) + "     [100%]\n     【经验】 "@ + colored(int_text(p.xp as int), Color::YELLOW) + "     / "@ + colored(int_text(p.max_xp as int), Color::YELLOW) + "                    \n    ├────────────────────────────────────────────\n    │【状态】 健康                                 \n    └──────────────────────────────未知世界──────┘\n    "@
}

/// The GMCP record of a player's vitals.
pub open spec fn vitals_text(p: Player) -> Seq<char> {
    "\n        Char {\n         \"Vitals\" : {\n         \"name\": \""@ + p.name@ + "\",\n         \"fullname\": \""@ + p.fullname@ + "\", \n         \"level\": "@ + int_text(p.level as int) + ",\n         \"hp\": "@ + int_text(p.hp as int) + ",\n         \"mp\": "@ + int_text(p.mp as int) + ",\n         \"fp\": "@ + int_text(p.fp as int) + ",\n         \"xp\": "@ + int_text(p.xp as int) + ",\n         \"maxhp\" : "@ + int_text(p.max_hp as int) + ",\n         \"maxmp\" : "@ + int_text(p.max_mp as int) + ",\n         \"maxfp\" : "@ + int_text(p.max_fp as int) + ",\n         \"maxxp\" : "@ + int_text(p.max_xp as int) + "\n         } \n        }"@
}

/// The GMCP message carrying a player's vitals.
pub open spec fn vitals_msg(addr: u64, p: Player) -> ActionView {
    send(ext_msg(MessageType::IacDoGmcp, addr, vitals_text(p)))
}

/// The names of the players on line, in green, a line break after every second one.
pub open spec fn who_text(es: Seq<(u64, Player)>) -> Seq<char>
    decreases es.len(),
{
    if es.len() == 0 {
        seq![]
    } else {
        who_text(es.drop_last()) + colored(es.last().1.name@, Color::GREEN) + if es.len() % 2 == 0 {
            "\n"@
        } else {
            " "@
        }
    }
}

impl<'a> HpCommand<'a> {
    /// A command reading `msg` against the players on line.
    pub fn new(players: &'a PlayerTable, msg: &'a Message) -> (r: Self)
        ensures
            r.players == players,
            r.msg == msg,
            r.out@ == Seq::<Action>::empty(),
    {
        HpCommand { players, msg, out: Vec::new() }
    }

    /// Shows `player`'s status frame, then sends the GMCP vitals of the player on the
    /// command's connection; answers `hp`.
    pub fn do_hp(&mut self, player: &Player) -> (r: String)
        requires
            player_at(old(self).players.entries@, old(self).msg.addr) is Some,
        ensures
            r@ == "hp"@,
            final(self).players == old(self).players,
            final(self).msg == old(self).msg,
            action_views(final(self).out@) == action_views(old(self).out@) + seq![
                send(
                    MessageView {
                        msg_type: MessageType::Normal,
                        content: hp_frame(*player),
                        addr: old(self).msg.addr,
                        timer_id: seq![],
                        max_cnt: 0,
                    },
                ),
                vitals_msg(old(self).msg.addr, player_at(old(self).players.entries@, old(self).msg.addr).unwrap()),
            ],
    {
        let p = player;
        let name_s = show_color(p.name.as_str(), Color::YELLOW);
        let mp_t = u64_text(p.mp as u64);
        let mp_s = show_color(mp_t.as_str(), Color::YELLOW);
        let max_mp_t = u64_text(p.max_mp as u64);
        let max_mp_s = show_color(max_mp_t.as_str(), Color::YELLOW);
        let hp_t = i64_text(p.hp as i64);
        let hp_s = show_color(hp_t.as_str(), Color::YELLOW);
        let max_hp_t = u64_text(p.max_hp as u64);
        let max_hp_s = show_color(max_hp_t.as_str(), Color::YELLOW);
        let fp_t = u64_text(p.fp as u64);
        let fp_s = show_color(fp_t.as_str(), Color::YELLOW);
        let max_fp_t = u64_text(p.max_fp as u64);
        let max_fp_s = show_color(max_fp_t.as_str(), Color::YELLOW);
        let xp_t = u64_text(p.xp as u64);
        let xp_s = show_color(xp_t.as_str(), Color::YELLOW);
        let max_xp_t = u64_text(p.max_xp as u64);
        let max_xp_s = show_color(max_xp_t.as_str(), Color::YELLOW);
        let mut hpframe = String::from_str("\n    ┌─── ");
        hpframe.append(name_s.as_str());
        hpframe.append("状态────────────\n     【气血】 ");
        hpframe.append(mp_s.as_str());
        hpframe.append("     / ");
        hpframe.append(max_mp_s.as_str());
        hpframe.append("      [100%]     \n     【法力】 ");
        hpframe.append(hp_s.as_str());
        hpframe.append("     / ");
        hpframe.append(max_hp_s.as_str());
        hpframe.append("      [100%]     \n     【信心】 ");
        hpframe.append(fp_s.as_str());
        hpframe.append("     / ");
        hpframe.append(max_fp_s.as_str());
        hpframe.append("     [100%]\n     【经验】 ");
        hpframe.append(xp_s.as_str());
        hpframe.append("     / ");
        hpframe.append(max_xp_s.as_str());
        hpframe.append("                    \n    ├────────────────────────────────────────────\n    │【状态】 健康                                 \n    └──────────────────────────────未知世界──────┘\n    ");
        let ghost before = action_views(self.out@);
        self.out.push(Action::Send(wrap_message_raw(self.msg.addr, hpframe)));
        let addr = self.msg.addr;
        self.send_msg(addr, "");
        assert(action_views(self.out@) =~= before + seq![
                send(
                    MessageView {
                        msg_type: MessageType::Normal,
                        content: hp_frame(*player),
                        addr: old(self).msg.addr,
                        timer_id: seq![],
                        max_cnt: 0,
                    },
                ),
                vitals_msg(old(self).msg.addr, player_at(old(self).players.entries@, old(self).msg.addr).unwrap()),
            ]);
        String::from_str("hp")
    }

    /// Lists the players on line (see `who_text`); answers `who`.
    pub fn do_who(&mut self) -> (r: String)
        ensures
            r@ == "who"@,
            final(self).players == old(self).players,
            final(self).msg == old(self).msg,
            action_views(final(self).out@) == action_views(old(self).out@).push(
                say(old(self).msg.addr, who_text(old(self).players.entries@)),
            ),
    {
        let es = &self.players.entries;
        let mut view = String::new();
        let mut i: usize = 0;
        while i < es.len()
            invariant
                es == &old(self).players.entries,
                i <= es@.len(),
                view@ == who_text(es@.take(i as int)),
            decreases es@.len() - i,
        {
            assert(es@.take(i + 1).drop_last() =~= es@.take(i as int));
            let name = show_color(es[i].1.name.as_str(), Color::GREEN);
            view.append(name.as_str());
            if (i + 1) % 2 == 0 {
                view.append("\n");
            } else {
                view.append(" ");
            }
            i += 1;
        }
        assert(es@.take(es@.len() as int) =~= es@);
        let m = wrap_message(self.msg.addr, view);
        let ghost before = action_views(self.out@);
        self.out.push(Action::Send(m));
        assert(action_views(self.out@) =~= before.push(say(old(self).msg.addr, who_text(old(self).players.entries@))));
        String::from_str("who")
    }

    /// Sends the GMCP vitals of the player on the command's connection (the arguments are
    /// not read); answers nothing.
    pub fn send_msg(&mut self, addr: u64, message: &str) -> (r: String)
        requires
            player_at(old(self).players.entries@, old(self).msg.addr) is Some,
        ensures
            r@ == Seq::<char>::empty(),
            final(self).players == old(self).players,
            final(self).msg == old(self).msg,
            action_views(final(self).out@) == action_views(old(self).out@).push(
                vitals_msg(old(self).msg.addr, player_at(old(self).players.entries@, old(self).msg.addr).unwrap()),
            ),
    {
        let p = match self.players.get(self.msg.addr) {
            Some(p) => p,
            None => {
                return String::new();
            },
        };
        let level_t = u64_text(p.level as u64);
        let hp_t = i64_text(p.hp as i64);
        let mp_t = u64_text(p.mp as u64);
        let fp_t = u64_text(p.fp as u64);
        let xp_t = u64_text(p.xp as u64);
        let max_hp_t = u64_text(p.max_hp as u64);
        let max_mp_t = u64_text(p.max_mp as u64);
        let max_fp_t = u64_text(p.max_fp as u64);
        let max_xp_t = u64_text(p.max_xp as u64);
        let mut view = String::from_str("\n        Char {\n         \"Vitals\" : {\n         \"name\": \"");
        view.append(p.name.as_str());
        view.append("\",\n         \"fullname\": \"");
        view.append(p.fullname.as_str());
        view.append("\", \n         \"level\": ");
        view.append(level_t.as_str());
        view.append(",\n         \"hp\": ");
        view.append(hp_t.as_str());
        view.append(",\n         \"mp\": ");
        view.append(mp_t.as_str());
        view.append(",\n         \"fp\": ");
        view.append(fp_t.as_str());
        view.append(",\n         \"xp\": ");
        view.append(xp_t.as_str());
        view.append(",\n         \"maxhp\" : ");
        view.append(max_hp_t.as_str());
        view.append(",\n         \"maxmp\" : ");
        view.append(max_mp_t.as_str());
        view.append(",\n         \"maxfp\" : ");
        view.append(max_fp_t.as_str());
        view.append(",\n         \"maxxp\" : ");
        view.append(max_xp_t.as_str());
        view.append("\n         } \n        }");
        let m = wrap_message_ext(MessageType::IacDoGmcp, self.msg.addr, view);
        let ghost before = action_views(self.out@);
        self.out.push(Action::Send(m));
        assert(action_views(self.out@) =~= before.push(vitals_msg(old(self).msg.addr, player_at(old(self).players.entries@, old(self).msg.addr).unwrap())));
        String::new()
    }

}

/// What `hp`/`who` does: `before` are the actions queued beforehand, `after` those queued
/// once it has run, `ret` its answer.
pub open spec fn hp_outcome(
    es: Seq<(u64, Player)>,
    msg: MessageView,
    before: Seq<ActionView>,
    after: Seq<ActionView>,
    ret: Seq<char>,
) -> bool {
    let cmd = lower(msg.content);
    let p = player_at(es, msg.addr).unwrap();
    if cmd == "hp"@ {
        &&& ret == "hp"@
        &&& after == before + seq![
            send(
                MessageView {
                    msg_type: MessageType::Normal,
                    content: hp_frame(p),
                    addr: msg.addr,
                    timer_id: seq![],
                    max_cnt: 0,
                },
            ),
            vitals_msg(msg.addr, p),
        ]
    } else if cmd == "who"@ {
        &&& ret == "who"@
        &&& after == before.push(say(msg.addr, who_text(es)))
    } else {
        &&& ret == "ok"@
        &&& after == before
    }
}

impl<'a> Command for HpCommand<'a> {
    /// What the command needs of the players on line.
    open spec fn ready(&self) -> bool {
        &&& player_at(self.players.entries@, self.msg.addr) is Some
    }

    /// What a run of the command does, answering `r`.
    open spec fn ran(&self, after: &Self, r: Seq<char>) -> bool {
        &&& after.players == self.players
        &&& after.msg == self.msg
        &&& hp_outcome(self.players.entries@, self.msg@, action_views(self.out@), action_views(after.out@), r)
    }

    /// Runs `hp` or `who` (in any letter case); other commands answer `ok`.
    fn execute(&mut self) -> (r: String)
    {
        let cmd = to_lower(self.msg.content.as_str());
        let player = match self.players.get(self.msg.addr) {
            Some(p) => p,
            None => {
                return String::new();
            },
        };
        if str_eq(cmd.as_str(), "hp") {
            return self.do_hp(player);
        }
        if str_eq(cmd.as_str(), "who") {
            return self.do_who();
        }
        String::from_str("ok")
    }
}

}
