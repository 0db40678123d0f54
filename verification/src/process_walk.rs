use vstd::prelude::*;
use vstd::string::*;

use crate::process::PostProcess;
use crate::channel::Message;
use crate::player::{has_named, has_named_exec, update_named, Player, PlayerTable};
use crate::service::LoginInfo;
use crate::text::{contains, contains_exec, parse_u32, parse_u32_exec, piece_or, split, split_str, str_eq, views};

verus! {

broadcast use vstd::string::group_string_axioms;

/// What follows a walk: the walker's timer stops and they stand on the new place.
pub struct ProcessWalk<'a> {
    pub ret_str: String,
    pub players: &'a mut PlayerTable,
    pub login_info: &'a LoginInfo,
    pub msg: &'a Message,
}

/// Whether a command's answer reports a walk (`<direction>@<place>`).
pub open spec fn walk_marked(ret: Seq<char>) -> bool {
    ||| contains(ret, "e@"@)
    ||| contains(ret, "w@"@)
    ||| contains(ret, "n@"@)
    ||| contains(ret, "s@"@)
    ||| contains(ret, "ne@"@)
    ||| contains(ret, "nw@"@)
    ||| contains(ret, "se@"@)
    ||| contains(ret, "sw@"@)
}

/// The place a walk answer names after its `@`, or `0`.
pub open spec fn walk_target(ret: Seq<char>) -> Seq<char> {
    piece_or(split(ret, seq!['@']), 1, "0"@)
}

/// A player after walking to `target`: timer stopped, and on the place unless it is `0`.
pub open spec fn walked(p: Player, target: Seq<char>) -> Player {
    Player {
        timer_id: 0,
        pos: if target == "0"@ {
            p.pos
        } else {
            parse_u32(target).unwrap() as u32
        },
        ..p
    }
}

/// Whether the place of a walk answer can be read as a place number whenever it is needed.
pub open spec fn walk_safe(es: Seq<(u64, Player)>, name: Seq<char>, ret: Seq<char>) -> bool {
    (walk_marked(ret) && walk_target(ret) != "0"@ && has_named(es, name)) ==> parse_u32(
        walk_target(ret),
    ) is Some
}

/// Whether a command's answer reports a walk (see `walk_marked`).
pub fn walk_marked_exec(ret: &str) -> (b: bool)
    ensures
        b == walk_marked(ret@),
{
    contains_exec(ret, "e@") || contains_exec(ret, "w@") || contains_exec(ret, "n@")
        || contains_exec(ret, "s@") || contains_exec(ret, "ne@") || contains_exec(ret, "nw@")
        || contains_exec(ret, "se@") || contains_exec(ret, "sw@")
}

/// The place a walk answer names after its `@` (see `walk_target`).
pub fn walk_target_exec(ret: &str) -> (r: String)
    ensures
        r@ == walk_target(ret@),
{
    proof {
        reveal_strlit("@");
        reveal_strlit("0");
        assert("@"@ =~= seq!['@']);
    }
    let pieces = split_str(ret, "@");
    if pieces.len() > 1 {
        assert(views(pieces@)[1] == pieces@[1]@);
        pieces[1].clone()
    } else {
        String::from_str("0")
    }
}

/// Whether the place of a walk answer can be read whenever needed (see `walk_safe`).
pub fn walk_safe_exec(es: &Vec<(u64, Player)>, name: &str, ret: &str) -> (b: bool)
    ensures
        b == walk_safe(es@, name@, ret@),
{
    proof {
        reveal_strlit("0");
    }
    if !walk_marked_exec(ret) {
        return true;
    }
    let target = walk_target_exec(ret);
    str_eq(target.as_str(), "0") || !has_named_exec(es, name) || parse_u32_exec(target.as_str()).is_some()
}

impl<'a> ProcessWalk<'a> {
    /// The step after a command that answered `ret_str`, for the player logged in as
    /// `login_info`.
    pub fn new(
        ret_str: String,
        players: &'a mut PlayerTable,
        login_info: &'a LoginInfo,
        msg: &'a Message,
    ) -> (r: Self)
        ensures
            r.ret_str == ret_str,
            *r.players == *old(players),
            *final(r.players) == *final(players),
            r.login_info == login_info,
            r.msg == msg,
    {
        ProcessWalk { ret_str, players, login_info, msg }
    }

}

impl<'a> PostProcess for ProcessWalk<'a> {
    /// What the step needs of the answer and the players.
    open spec fn ready(&self) -> bool {
        &&& walk_safe(
            self.players.entries@,
            self.login_info.login.login_name@,
            self.ret_str@,
        )
    }

    /// What a run of the step does, answering `r`.
    open spec fn ran(&self, after: &Self, r: Seq<char>) -> bool {
        &&& r == Seq::<char>::empty()
        &&& after.ret_str == self.ret_str
        &&& after.login_info == self.login_info
        &&& after.msg == self.msg
        &&& after.players.entries@ == if walk_marked(self.ret_str@) {
            update_named(
                self.players.entries@,
                self.login_info.login.login_name@,
                |p: Player| walked(p, walk_target(self.ret_str@)),
            )
        } else {
            self.players.entries@
        }
    }

    /// When the answer reports a walk, every player of the login's name has their timer
    /// stopped and stands on the place named after `@` (unless it is `0`). Answers nothing.
    fn execute(&mut self) -> (r: String)
        ensures
            *final(final(self).players) == *final(old(self).players),
    {
        let ret = self.ret_str.as_str();
        let marked = contains_exec(ret, "e@") || contains_exec(ret, "w@") || contains_exec(ret, "n@")
            || contains_exec(ret, "s@") || contains_exec(ret, "ne@") || contains_exec(ret, "nw@")
            || contains_exec(ret, "se@") || contains_exec(ret, "sw@");
        if !marked {
            return String::new();
        }
        proof {
            reveal_strlit("@");
            reveal_strlit("0");
            assert("@"@ =~= seq!['@']);
        }
        let pieces = split_str(ret, "@");
        let target = if pieces.len() > 1 {
            assert(views(pieces@)[1] == pieces@[1]@);
            pieces[1].clone()
        } else {
            String::from_str("0")
        };
        let ghost name = self.login_info.login.login_name@;
        let ghost es = self.players.entries@;
        let ghost goal = update_named(es, name, |p: Player| walked(p, target@));
        let n = self.players.entries.len();
        let mut i: usize = 0;
        while i < n
            invariant
                n == es.len(),
                i <= n,
                name == self.login_info.login.login_name@,
                target@ == walk_target(old(self).ret_str@),
                self.ret_str == old(self).ret_str,
                self.login_info == old(self).login_info,
                self.msg == old(self).msg,
                *final(self.players) == *final(old(self).players),
                es == old(self).players.entries@,
                goal == update_named(es, name, |p: Player| walked(p, target@)),
                walk_safe(es, name, old(self).ret_str@),
                walk_marked(old(self).ret_str@),
                self.players.entries@.len() == n,
                forall|j: int| 0 <= j < i ==> self.players.entries@[j] == goal[j],
                forall|j: int| i <= j < n ==> self.players.entries@[j] == es[j],
            decreases n - i,
        {
            if str_eq(self.players.entries[i].1.name.as_str(), self.login_info.login.login_name.as_str()) {
                let (a, mut p) = self.players.entries.remove(i);
                p.timer_id = 0;
                if !str_eq(target.as_str(), "0") {
                    proof {
                        assert(has_named(es, name)) by {
                            assert(es[i as int].1.name@ == name);
                        }
                    }
                    p.pos = match parse_u32_exec(target.as_str()) {
                        Some(v) => v,
                        None => p.pos,
                    };
                }
                self.players.entries.insert(i, (a, p));
            }
            i += 1;
        }
        assert(self.players.entries@ =~= goal);
        String::new()
    }
}

}
