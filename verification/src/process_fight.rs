use vstd::prelude::*;
use vstd::string::*;

use crate::process::PostProcess;
use crate::channel::Message;
use crate::player::{has_named, has_named_exec, Player, PlayerTable};
use crate::service::LoginInfo;
use crate::text::{contains, contains_exec, parse_i32, parse_i32_exec, parse_usize, parse_usize_exec, split, split_str, str_eq, views};

verus! {

broadcast use vstd::string::group_string_axioms;

/// What follows a fight round: both sides' health and the fighter's combat timer are kept.
pub struct ProcessFight<'a> {
    pub ret_str: String,
    pub players: &'a mut PlayerTable,
    pub login_info: &'a LoginInfo,
    pub msg: &'a Message,
}

/// The entries after a fight round reported as `fight <opponent> <hp> <opponent hp> <timer>`:
/// each player of the login's name takes the first health and the timer, and each other
/// player of the opponent's name the second health.
pub open spec fn fought(es: Seq<(u64, Player)>, name: Seq<char>, words: Seq<Seq<char>>) -> Seq<
    (u64, Player),
> {
    es.map_values(
        |e: (u64, Player)|
            if e.1.name@ == name {
                (
                    e.0,
                    Player {
                        hp: parse_i32(words[2]).unwrap() as i32,
                        timer_id: parse_usize(words[4]).unwrap() as usize,
                        ..e.1
                    },
                )
            } else if e.1.name@ == words[1] {
                (e.0, Player { hp: parse_i32(words[3]).unwrap() as i32, ..e.1 })
            } else {
                e
            },
    )
}

/// Whether the numbers of a fight answer can be read wherever they are needed.
pub open spec fn fight_report_safe(es: Seq<(u64, Player)>, name: Seq<char>, ret: Seq<char>) -> bool {
    let words = split(ret, seq![' ']);
    (contains(ret, "fight"@) && words.len() >= 5) ==> {
        &&& has_named(es, name) ==> parse_i32(words[2]) is Some && parse_usize(words[4]) is Some
        &&& (words[1] != name && has_named(es, words[1])) ==> parse_i32(words[3]) is Some
    }
}

/// Whether the numbers of a fight answer can be read (see `fight_report_safe`).
pub fn fight_report_safe_exec(es: &Vec<(u64, Player)>, name: &str, ret: &str) -> (b: bool)
    ensures
        b == fight_report_safe(es@, name@, ret@),
{
    proof {
        reveal_strlit(" ");
        assert(" "@ =~= seq![' ']);
    }
    let words = split_str(ret, " ");
    if !contains_exec(ret, "fight") || words.len() < 5 {
        return true;
    }
    assert(views(words@)[1] == words@[1]@ && views(words@)[2] == words@[2]@);
    assert(views(words@)[3] == words@[3]@ && views(words@)[4] == words@[4]@);
    let me_ok = !has_named_exec(es, name) || (parse_i32_exec(words[2].as_str()).is_some()
        && parse_usize_exec(words[4].as_str()).is_some());
    let other_ok = str_eq(words[1].as_str(), name) || !has_named_exec(es, words[1].as_str())
        || parse_i32_exec(words[3].as_str()).is_some();
    me_ok && other_ok
}

impl<'a> ProcessFight<'a> {
    /// The step after a command that answered `ret_str`, for the player logged in as
    /// `login_info`.
    pub fn new(
        ret_str: String,
        players: &'a mut PlayerTable,
        login_info: &'a LoginInfo,
        msg: &'a Message,
    ) -> (r: Self)
        ensures
            r.ret_str == ret_str,
            *r.players == *old(players),
            *final(r.players) == *final(players),
            r.login_info == login_info,
            r.msg == msg,
    {
        ProcessFight { ret_str, players, login_info, msg }
    }

}

impl<'a> PostProcess for ProcessFight<'a> {
    /// What the step needs of the answer and the players.
    open spec fn ready(&self) -> bool {
        &&& fight_report_safe(
            self.players.entries@,
            self.login_info.login.login_name@,
            self.ret_str@,
        )
    }

    /// What a run of the step does, answering `r`.
    open spec fn ran(&self, after: &Self, r: Seq<char>) -> bool {
        &&& after.ret_str == self.ret_str
        &&& after.login_info == self.login_info
        &&& after.msg == self.msg
        &&& ({
            let ret = self.ret_str@;
            let words = split(ret, seq![' ']);
            let es = self.players.entries@;
            if !contains(ret, "fight"@) {
                r == Seq::<char>::empty() && after.players.entries@ == es
            } else if words.len() < 2 {
                r == Seq::<char>::empty() && after.players.entries@ == es
            } else if words.len() < 5 {
                r == "0"@ && after.players.entries@ == es
            } else {
                &&& r == Seq::<char>::empty()
                &&& after.players.entries@ == fought(
                    es,
                    self.login_info.login.login_name@,
                    words,
                )
            }
        })
    }

    /// Keeps what a fight answer reports (see `fought`). An answer naming no opponent gives
    /// an empty answer, one without all three numbers `0`; neither changes anyone.
    fn execute(&mut self) -> (r: String)
        ensures
            *final(final(self).players) == *final(old(self).players),
    {
        if !contains_exec(self.ret_str.as_str(), "fight") {
            return String::new();
        }
        proof {
            reveal_strlit(" ");
            assert(" "@ =~= seq![' ']);
        }
        let words = split_str(self.ret_str.as_str(), " ");
        if words.len() < 2 {
            return String::new();
        }
        if words.len() < 5 {
            return String::from_str("0");
        }
        let ghost ws = views(words@);
        assert(ws[1] == words@[1]@ && ws[2] == words@[2]@ && ws[3] == words@[3]@ && ws[4] == words@[4]@);
        let ghost name = self.login_info.login.login_name@;
        let ghost es = self.players.entries@;
        let ghost goal = fought(es, name, ws);
        let n = self.players.entries.len();
        let mut i: usize = 0;
        while i < n
            invariant
                n == es.len(),
                i <= n,
                words@.len() >= 5,
                ws == views(words@),
                ws[1] == words@[1]@ && ws[2] == words@[2]@ && ws[3] == words@[3]@ && ws[4] == words@[4]@,
                name == self.login_info.login.login_name@,
                self.ret_str == old(self).ret_str,
                self.login_info == old(self).login_info,
                self.msg == old(self).msg,
                *final(self.players) == *final(old(self).players),
                es == old(self).players.entries@,
                goal == fought(es, name, ws),
                ws == split(old(self).ret_str@, seq![' ']),
                fight_report_safe(es, name, old(self).ret_str@),
                contains(old(self).ret_str@, "fight"@),
                self.players.entries@.len() == n,
                forall|j: int| 0 <= j < i ==> self.players.entries@[j] == goal[j],
                forall|j: int| i <= j < n ==> self.players.entries@[j] == es[j],
            decreases n - i,
        {
            let is_me = str_eq(self.players.entries[i].1.name.as_str(), self.login_info.login.login_name.as_str());
            let is_opponent = str_eq(self.players.entries[i].1.name.as_str(), words[1].as_str());
            if is_me {
                proof {
                    assert(has_named(es, name)) by {
                        assert(es[i as int].1.name@ == name);
                    }
                }
                let (a, mut p) = self.players.entries.remove(i);
                p.hp = match parse_i32_exec(words[2].as_str()) {
                    Some(v) => v,
                    None => p.hp,
                };
                p.timer_id = match parse_usize_exec(words[4].as_str()) {
                    Some(v) => v,
                    None => p.timer_id,
                };
                self.players.entries.insert(i, (a, p));
            } else if is_opponent {
                proof {
                    assert(has_named(es, ws[1])) by {
                        assert(es[i as int].1.name@ == ws[1]);
                    }
                }
                let (a, mut p) = self.players.entries.remove(i);
                p.hp = match parse_i32_exec(words[3].as_str()) {
                    Some(v) => v,
                    None => p.hp,
                };
                self.players.entries.insert(i, (a, p));
            }
            i += 1;
        }
        assert(self.players.entries@ =~= goal);
        String::new()
    }
}

}
