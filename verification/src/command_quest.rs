use std::collections::HashMap;
use vstd::prelude::*;
use vstd::string::*;

use crate::command::Command;
use crate::action::{action_views, say, Action, ActionView};
use crate::channel::{wrap_message, Message, MessageView};
use crate::player::{player_at, Player, PlayerTable};
use crate::quest::Quest;
use crate::text::{lower, str_eq, to_lower};

verus! {

broadcast use {vstd::string::group_string_axioms, vstd::std_specs::hash::group_hash_axioms};

/// The `jq`/`jobquery` command.
pub struct QuestCommand<'a> {
    pub players: &'a PlayerTable,
    pub msg: &'a Message,
    pub quests: &'a HashMap<u32, Quest>,
    pub out: Vec<Action>,
}

/// What a player is told of their next guide quest: its task, or that there is none.
pub open spec fn job_text(p: Player, quests: Map<u32, Quest>) -> Seq<char> {
    if quests.contains_key(p.newbie_next) {
        quests[p.newbie_next].job@
    } else {
        "当前没有任务"@
    }
}

/// What `jq` does: `before` are the actions queued beforehand, `after` those queued once it
/// has run, `ret` its answer.
pub open spec fn quest_outcome(
    es: Seq<(u64, Player)>,
    quests: Map<u32, Quest>,
    msg: MessageView,
    before: Seq<ActionView>,
    after: Seq<ActionView>,
    ret: Seq<char>,
) -> bool {
    let cmd = lower(msg.content);
    if cmd == "jq"@ || cmd == "jobquery"@ {
        &&& ret == "jobquery"@
        &&& after == before.push(say(msg.addr, job_text(player_at(es, msg.addr).unwrap(), quests)))
    } else {
        &&& ret == "ok"@
        &&& after == before
    }
}

impl<'a> QuestCommand<'a> {
    /// A command reading `msg` against the players on line and the quests.
    pub fn new(
        players: &'a PlayerTable,
        msg: &'a Message,
        quests: &'a HashMap<u32, Quest>,
    ) -> (r: Self)
        ensures
            r.players == players,
            r.msg == msg,
            r.quests == quests,
            r.out@ == Seq::<Action>::empty(),
    {
        QuestCommand { players, msg, quests, out: Vec::new() }
    }

    /// Tells the client the task of `player`'s next guide quest (see `job_text`); answers
    /// `jobquery`.
    pub fn do_jobquery(&mut self, player: &Player, quests: &HashMap<u32, Quest>) -> (r: String)
        ensures
            r@ == "jobquery"@,
            final(self).players == old(self).players,
            final(self).msg == old(self).msg,
            final(self).quests == old(self).quests,
            action_views(final(self).out@) == action_views(old(self).out@).push(
                say(old(self).msg.addr, job_text(*player, quests@)),
            ),
    {
        let ghost before = action_views(self.out@);
        match quests.get(&player.newbie_next) {
            Some(quest) => {
                let m = wrap_message(self.msg.addr, quest.job.clone());
                self.out.push(Action::Send(m));
            },
            None => {
                let m = wrap_message(self.msg.addr, String::from_str("当前没有任务"));
                self.out.push(Action::Send(m));
            },
        }
        assert(action_views(self.out@) =~= before.push(
            say(old(self).msg.addr, job_text(*player, quests@)),
        ));
        String::from_str("jobquery")
    }

}

impl<'a> Command for QuestCommand<'a> {
    /// What the command needs of the players on line.
    open spec fn ready(&self) -> bool {
        &&& player_at(self.players.entries@, self.msg.addr) is Some
    }

    /// What a run of the command does, answering `r`.
    open spec fn ran(&self, after: &Self, r: Seq<char>) -> bool {
        &&& after.players == self.players
        &&& after.msg == self.msg
        &&& after.quests == self.quests
        &&& quest_outcome(
            self.players.entries@,
            self.quests@,
            self.msg@,
            action_views(self.out@),
            action_views(after.out@),
            r,
        )
    }

    /// Runs `jq` or `jobquery` (in any letter case); other commands answer `ok`.
    fn execute(&mut self) -> (r: String)
    {
        let player = match self.players.get(self.msg.addr) {
            Some(p) => p,
            None => {
                return String::new();
            },
        };
        let cmd = to_lower(self.msg.content.as_str());
        if str_eq(cmd.as_str(), "jq") || str_eq(cmd.as_str(), "jobquery") {
            let quests = self.quests;
            return self.do_jobquery(player, quests);
        }
        String::from_str("ok")
    }
}

}
