use std::collections::HashMap;
use vstd::prelude::*;
use vstd::string::*;

use crate::action::{action_views, say, Action, ActionView};
use crate::channel::{wrap_message, Message, MessageView};
use crate::laws::law_login_keeps_connections_unique;
use crate::player::{addr_index, addrs_unique, has_named, is_new_player, player_at, Player, PlayerTable};
use crate::quest::Quest;
use crate::service::{Login, LoginInfo};
use crate::text::{owned, str_eq};

verus! {

broadcast use {vstd::string::group_string_axioms, vstd::std_specs::hash::group_hash_axioms};

/// Logging a connection in: first its login name, then its password. `logins` are the known
/// logins and `users` the registered players, as read from their files.
pub struct LoginService<'a> {
    pub login_info: &'a mut LoginInfo,
    pub msg: &'a Message,
    pub players: &'a mut PlayerTable,
    pub quests: &'a HashMap<u32, Quest>,
    pub logins: &'a Vec<Login>,
    pub users: Vec<Player>,
    pub out: Vec<Action>,
}

/// Whether some known login has the name `name`.
pub open spec fn name_known(logins: Seq<Login>, name: Seq<char>) -> bool {
    exists|i: int| 0 <= i < logins.len() && logins[i].login_name@ == name
}

/// Whether some known login has the name `name` and the password `password`.
pub open spec fn login_matches(logins: Seq<Login>, name: Seq<char>, password: Seq<char>) -> bool {
    exists|i: int|
        0 <= i < logins.len() && logins[i].login_name@ == name && logins[i].password@ == password
}

/// Whether `u` is the first registered player named `name`.
pub open spec fn first_user_at(users: Seq<Player>, name: Seq<char>, u: int) -> bool {
    &&& 0 <= u < users.len()
    &&& users[u].name@ == name
    &&& forall|j: int| 0 <= j < u ==> users[j].name@ != name
}

/// The first registered player named `name` (meaningful when there is one).
pub open spec fn first_user(users: Seq<Player>, name: Seq<char>) -> Player {
    users[choose|u: int| first_user_at(users, name, u)]
}

/// The table with a seat for `addr`: unchanged when the connection has a player, else with
/// a new player for it at the end.
pub open spec fn seated(es: Seq<(u64, Player)>, addr: u64, es2: Seq<(u64, Player)>) -> bool {
    if addr_index(es, addr) is Some {
        es2 == es
    } else {
        &&& es2.len() == es.len() + 1
        &&& es2.drop_last() == es
        &&& es2.last().0 == addr
        &&& is_new_player(es2.last().1)
    }
}

/// The table with `p` seated for `addr`: in place of the connection's player, or at the end.
pub open spec fn placed(es: Seq<(u64, Player)>, addr: u64, p: Player) -> Seq<(u64, Player)> {
    match addr_index(es, addr) {
        Some(i) => es.update(i, (addr, p)),
        None => es.push((addr, p)),
    }
}

/// The connections of the players named `name`, in table order.
pub open spec fn named_addrs(ps: Seq<(u64, Player)>, name: Seq<char>) -> Seq<u64>
    decreases ps.len(),
{
    if ps.len() == 0 {
        seq![]
    } else {
        named_addrs(ps.drop_last(), name) + if ps.last().1.name@ == name {
            seq![ps.last().0]
        } else {
            seq![]
        }
    }
}

/// The entries of `es` whose connection is not in `gone`.
pub open spec fn without_addrs(es: Seq<(u64, Player)>, gone: Seq<u64>) -> Seq<(u64, Player)>
    decreases es.len(),
{
    if es.len() == 0 {
        es
    } else {
        let rest = without_addrs(es.drop_first(), gone);
        if gone.contains(es[0].0) {
            rest
        } else {
            seq![es[0]] + rest
        }
    }
}

/// Closing each of the connections `gone`, in order.
pub open spec fn disconnects(gone: Seq<u64>) -> Seq<ActionView> {
    gone.map_values(|a: u64| ActionView::Disconnect(a))
}

/// Some player is named `name` exactly when that name has a connection.
pub proof fn lemma_named_addrs(ps: Seq<(u64, Player)>, name: Seq<char>)
    ensures
        has_named(ps, name) <==> named_addrs(ps, name).len() > 0,
    decreases ps.len(),
{
    if ps.len() > 0 {
        let p = ps.drop_last();
        lemma_named_addrs(p, name);
        if has_named(p, name) {
            let j = choose|j: int| 0 <= j < p.len() && p[j].1.name@ == name;
            assert(ps[j] == p[j]);
        }
        if has_named(ps, name) && ps.last().1.name@ != name {
            let j = choose|j: int| 0 <= j < ps.len() && ps[j].1.name@ == name;
            assert(j < ps.len() - 1);
            assert(p[j] == ps[j]);
        }
        if ps.last().1.name@ == name {
            assert(ps[ps.len() - 1].1.name@ == name);
        }
    }
}

/// The next guide quest of the player the connection had before logging in (a new
/// player's is 1).
pub open spec fn next_quest_before(es: Seq<(u64, Player)>, addr: u64) -> u32 {
    match player_at(es, addr) {
        Some(p) => p.newbie_next,
        None => 1,
    }
}

/// What a login step does with the message's text. Without a login name yet, the text is
/// taken as the name when a known login has it (answer 1), else the user is told there is no
/// such user (answer 2). With a name, the text is the password: a wrong one is refused
/// (answer 4); a right one logs the connection in with the first registered player of that
/// name. If that name was already playing, its connections are closed and their players
/// dropped (answer 99); otherwise the player's next guide quest is shown (answer 0), or
/// the answer is 99 when that quest is unknown. The connection always has a seat.
pub open spec fn login_outcome(
    es: Seq<(u64, Player)>,
    logins: Seq<Login>,
    users: Seq<Player>,
    quests: Map<u32, Quest>,
    msg: MessageView,
    info: LoginInfo,
    before: Seq<ActionView>,
    after: Seq<ActionView>,
    ret: u32,
    es2: Seq<(u64, Player)>,
    info2: LoginInfo,
) -> bool {
    let addr = msg.addr;
    let text = msg.content;
    let name = info.login.login_name@;
    if name.len() == 0 {
        &&& seated(es, addr, es2)
        &&& info2.b_login == info.b_login
        &&& info2.login.password@ == info.login.password@
        &&& if name_known(logins, text) {
            &&& ret == 1
            &&& info2.login.login_name@ == text
            &&& after == before.push(say(addr, "此ID档案已存在,请输入密码:"@))
        } else {
            &&& ret == 2
            &&& info2.login.login_name@ == name
            &&& after == before.push(say(addr, "用户不存在"@))
        }
    } else {
        &&& info2.login.login_name@ == name
        &&& info2.login.password@ == text
        &&& if !login_matches(logins, name, text) {
            &&& ret == 4
            &&& info2.b_login == info.b_login
            &&& seated(es, addr, es2)
            &&& after == before.push(say(addr, "密码错误！"@))
        } else {
            let es1 = placed(es, addr, first_user(users, name));
            let said = before.push(say(addr, "重新连线完毕。"@));
            let next = next_quest_before(es, addr);
            &&& info2.b_login
            &&& if has_named(es, name) {
                &&& ret == 99
                &&& es2 == without_addrs(es1, named_addrs(es, name))
                &&& after == said.push(say(addr, "此用户已在服务器上登录过，其将被强制退出。"@))
                    + disconnects(named_addrs(es, name))
            } else {
                &&& es2 == es1
                &&& if next == 0 {
                    ret == 0 && after == said
                } else if quests.contains_key(next) {
                    ret == 0 && after == said.push(say(addr, quests[next].job@))
                } else {
                    ret == 99 && after == said
                }
            }
        }
    }
}

/// Whether a right password finds its registered player.
pub open spec fn login_safe(logins: Seq<Login>, users: Seq<Player>, info: LoginInfo, text: Seq<char>) -> bool {
    (info.login.login_name@.len() != 0 && login_matches(logins, info.login.login_name@, text))
        ==> exists|u: int| 0 <= u < users.len() && users[u].name@ == info.login.login_name@
}

/// Whether some known login has the name `name`.
fn any_login_named(logins: &Vec<Login>, name: &str) -> (b: bool)
    ensures
        b == name_known(logins@, name@),
{
    let mut i: usize = 0;
    while i < logins.len()
        invariant
            i <= logins@.len(),
            forall|j: int| 0 <= j < i ==> logins@[j].login_name@ != name@,
        decreases logins@.len() - i,
    {
        if str_eq(logins[i].login_name.as_str(), name) {
            return true;
        }
        i += 1;
    }
    false
}

/// Whether some known login has the name `name` and the password `password`.
fn any_login_matching(logins: &Vec<Login>, name: &str, password: &str) -> (b: bool)
    ensures
        b == login_matches(logins@, name@, password@),
{
    let mut i: usize = 0;
    while i < logins.len()
        invariant
            i <= logins@.len(),
            forall|j: int|
                0 <= j < i ==> !(logins@[j].login_name@ == name@ && logins@[j].password@ == password@),
        decreases logins@.len() - i,
    {
        if str_eq(logins[i].login_name.as_str(), name) && str_eq(logins[i].password.as_str(), password) {
            return true;
        }
        i += 1;
    }
    false
}

/// The connections of the players named `name`.
fn named_addrs_exec(es: &Vec<(u64, Player)>, name: &str) -> (r: Vec<u64>)
    ensures
        r@ == named_addrs(es@, name@),
{
    let mut r: Vec<u64> = Vec::new();
    let mut i: usize = 0;
    while i < es.len()
        invariant
            i <= es@.len(),
            r@ == named_addrs(es@.take(i as int), name@),
        decreases es@.len() - i,
    {
        let ghost t = es@.take(i + 1);
        assert(t.drop_last() =~= es@.take(i as int));
        assert(t.last() == es@[i as int]);
        if str_eq(es[i].1.name.as_str(), name) {
            r.push(es[i].0);
        }
        assert(r@ =~= named_addrs(t, name@));
        i += 1;
    }
    assert(es@.take(es@.len() as int) =~= es@);
    r
}

/// Whether `a` is one of `v`.
fn has_addr(v: &Vec<u64>, a: u64) -> (b: bool)
    ensures
        b == v@.contains(a),
{
    let mut i: usize = 0;
    while i < v.len()
        invariant
            i <= v@.len(),
            forall|j: int| 0 <= j < i ==> v@[j] != a,
        decreases v@.len() - i,
    {
        if v[i] == a {
            assert(v@[i as int] == a);
            return true;
        }
        i += 1;
    }
    false
}

/// Where the first registered player named `name` stands, if there is one.
fn first_user_index(users: &Vec<Player>, name: &str) -> (r: Option<usize>)
    ensures
        match r {
            Some(u) => first_user_at(users@, name@, u as int),
            None => forall|u: int| 0 <= u < users@.len() ==> users@[u].name@ != name@,
        },
{
    let mut i: usize = 0;
    while i < users.len()
        invariant
            i <= users@.len(),
            forall|j: int| 0 <= j < i ==> users@[j].name@ != name@,
        decreases users@.len() - i,
    {
        if str_eq(users[i].name.as_str(), name) {
            return Some(i);
        }
        i += 1;
    }
    None
}

/// Whether a login step can run (see `login_safe`).
pub fn login_safe_exec(logins: &Vec<Login>, users: &Vec<Player>, info: &LoginInfo, text: &str) -> (b: bool)
    ensures
        b == login_safe(logins@, users@, *info, text@),
{
    proof {
        reveal_strlit("");
        assert(""@ =~= Seq::<char>::empty());
    }
    if str_eq(info.login.login_name.as_str(), "") {
        return true;
    }
    proof {
        if info.login.login_name@.len() == 0 {
            assert(info.login.login_name@ =~= ""@);
        }
    }
    if !any_login_matching(logins, info.login.login_name.as_str(), text) {
        return true;
    }
    match first_user_index(users, info.login.login_name.as_str()) {
        Some(u) => true,
        None => false,
    }
}

impl<'a> LoginService<'a> {
    /// A login step for `msg` on the connection whose state is `login_info`.
    pub fn new(
        login_info: &'a mut LoginInfo,
        msg: &'a Message,
        players: &'a mut PlayerTable,
        quests: &'a HashMap<u32, Quest>,
        logins: &'a Vec<Login>,
        users: Vec<Player>,
    ) -> (r: Self)
        ensures
            *r.login_info == *old(login_info),
            *final(r.login_info) == *final(login_info),
            r.msg == msg,
            *r.players == *old(players),
            *final(r.players) == *final(players),
            r.quests == quests,
            r.logins == logins,
            r.users == users,
            r.out@ == Seq::<Action>::empty(),
    {
        LoginService { login_info, msg, players, quests, logins, users, out: Vec::new() }
    }

    /// Gives the connection a seat: a new player when it has none.
    fn seat(&mut self)
        ensures
            seated(old(self).players.entries@, old(self).msg.addr, final(self).players.entries@),
            *final(final(self).players) == *final(old(self).players),
            *final(final(self).login_info) == *final(old(self).login_info),
            *final(self).login_info == *old(self).login_info,
            final(self).msg == old(self).msg,
            final(self).quests == old(self).quests,
            final(self).logins == old(self).logins,
            final(self).users == old(self).users,
            final(self).out == old(self).out,
    {
        if self.players.index_of(self.msg.addr).is_none() {
            let ghost es = self.players.entries@;
            self.players.entries.push((self.msg.addr, Player::new()));
            assert(self.players.entries@.drop_last() =~= es);
        }
    }

    /// Logs the connection in, a step at a time (see `login_outcome`); a table keyed by
    /// connection stays so.
    pub fn do_login(&mut self) -> (r: u32)
        requires
            login_safe(old(self).logins@, old(self).users@, *old(self).login_info, old(self).msg.content@),
        ensures
            *final(final(self).players) == *final(old(self).players),
            *final(final(self).login_info) == *final(old(self).login_info),
            final(self).msg == old(self).msg,
            final(self).quests == old(self).quests,
            final(self).logins == old(self).logins,
            login_outcome(
                old(self).players.entries@,
                old(self).logins@,
                old(self).users@,
                old(self).quests@,
                old(self).msg@,
                *old(self).login_info,
                action_views(old(self).out@),
                action_views(final(self).out@),
                r,
                final(self).players.entries@,
                *final(self).login_info,
            ),
            old(self).players.wf() ==> final(self).players.wf(),
    {
        let ghost es = self.players.entries@;
        let ghost info = *self.login_info;
        let ghost before = action_views(self.out@);
        let ghost users = self.users@;
        let r = self.login_step();
        proof {
            if addrs_unique(es) {
                law_login_keeps_connections_unique(
                    es,
                    self.logins@,
                    users,
                    self.quests@,
                    self.msg@,
                    info,
                    before,
                    action_views(self.out@),
                    r,
                    self.players.entries@,
                    *self.login_info,
                );
            }
        }
        r
    }

    /// One login step (see `login_outcome`).
    fn login_step(&mut self) -> (r: u32)
        requires
            login_safe(old(self).logins@, old(self).users@, *old(self).login_info, old(self).msg.content@),
        ensures
            *final(final(self).players) == *final(old(self).players),
            *final(final(self).login_info) == *final(old(self).login_info),
            final(self).msg == old(self).msg,
            final(self).quests == old(self).quests,
            final(self).logins == old(self).logins,
            login_outcome(
                old(self).players.entries@,
                old(self).logins@,
                old(self).users@,
                old(self).quests@,
                old(self).msg@,
                *old(self).login_info,
                action_views(old(self).out@),
                action_views(final(self).out@),
                r,
                final(self).players.entries@,
                *final(self).login_info,
            ),
    {
        let ghost es = self.players.entries@;
        let ghost before = action_views(self.out@);
        let addr = self.msg.addr;
        let next_before: u32 = match self.players.get(addr) {
            Some(p) => p.newbie_next,
            None => 1,
        };
        proof {
            reveal_strlit("");
            assert(""@ =~= Seq::<char>::empty());
        }
        if str_eq(self.login_info.login.login_name.as_str(), "") {
            self.seat();
            if any_login_named(self.logins, self.msg.content.as_str()) {
                self.login_info.login.login_name = owned(self.msg.content.as_str());
                self.out.push(Action::Send(wrap_message(addr, String::from_str("此ID档案已存在,请输入密码:"))));
                assert(action_views(self.out@) =~= before.push(say(addr, "此ID档案已存在,请输入密码:"@)));
                return 1;
            } else {
                self.out.push(Action::Send(wrap_message(addr, String::from_str("用户不存在"))));
                assert(action_views(self.out@) =~= before.push(say(addr, "用户不存在"@)));
                return 2;
            }
        }
        proof {
            if self.login_info.login.login_name@.len() == 0 {
                assert(self.login_info.login.login_name@ =~= ""@);
            }
        }
        self.login_info.login.password = owned(self.msg.content.as_str());
        let matched = any_login_matching(
            self.logins,
            self.login_info.login.login_name.as_str(),
            self.login_info.login.password.as_str(),
        );
        if !matched {
            self.seat();
            self.out.push(Action::Send(wrap_message(addr, String::from_str("密码错误！"))));
            assert(action_views(self.out@) =~= before.push(say(addr, "密码错误！"@)));
            return 4;
        }
        self.login_info.b_login = true;
        self.out.push(Action::Send(wrap_message(addr, String::from_str("重新连线完毕。"))));
        let ghost said = before.push(say(addr, "重新连线完毕。"@));
        assert(action_views(self.out@) =~= said);
        let ghost name = self.login_info.login.login_name@;
        let gone = named_addrs_exec(&self.players.entries, self.login_info.login.login_name.as_str());
        let u = match first_user_index(&self.users, self.login_info.login.login_name.as_str()) {
            Some(u) => u,
            None => {
                proof {
                    assert(old(self).login_info.login.login_name@.len() != 0);
                    assert(login_matches(old(self).logins@, name, old(self).msg.content@));
                    let w = choose|w: int| 0 <= w < old(self).users@.len() && old(self).users@[w].name@ == name;
                    assert(self.users@[w].name@ == name);
                }
                return 0;
            },
        };
        proof {
            let c = choose|c: int| first_user_at(old(self).users@, name, c);
            assert(first_user_at(old(self).users@, name, u as int));
            if c < u {
                assert(old(self).users@[c].name@ != name);
            }
            if c > u {
                assert(old(self).users@[u as int].name@ != name);
            }
        }
        let user = self.users.remove(u);
        proof {
            crate::player::lemma_addr_from(self.players.entries@, addr, 0);
        }
        match self.players.index_of(addr) {
            Some(i) => {
                let _gone = self.players.entries.remove(i);
                self.players.entries.insert(i, (addr, user));
            },
            None => {
                self.players.entries.push((addr, user));
            },
        }
        let ghost es1 = placed(es, addr, first_user(old(self).users@, name));
        assert(self.players.entries@ =~= es1);
        proof {
            lemma_named_addrs(es, name);
        }
        let ghost info_now = *self.login_info;
        if gone.len() > 0 {
            self.out.push(Action::Send(wrap_message(addr, String::from_str("此用户已在服务器上登录过，其将被强制退出。"))));
            let ghost kicked = said.push(say(addr, "此用户已在服务器上登录过，其将被强制退出。"@));
            assert(action_views(self.out@) =~= kicked);
            let mut k: usize = 0;
            while k < gone.len()
                invariant
                    *final(self.players) == *final(old(self).players),
                    *final(self.login_info) == *final(old(self).login_info),
                    *self.login_info == info_now,
                    self.msg == old(self).msg,
                    self.quests == old(self).quests,
                    self.logins == old(self).logins,
                    self.players.entries@ == es1,
                    k <= gone@.len(),
                    action_views(self.out@) == kicked + disconnects(gone@.take(k as int)),
                decreases gone@.len() - k,
            {
                let ghost prev = action_views(self.out@);
                self.out.push(Action::Disconnect(gone[k]));
                assert(action_views(self.out@) =~= prev.push(ActionView::Disconnect(gone@[k as int])));
                assert(disconnects(gone@.take(k + 1)) =~= disconnects(gone@.take(k as int)).push(
                    ActionView::Disconnect(gone@[k as int]),
                ));
                k += 1;
                assert(action_views(self.out@) =~= kicked + disconnects(gone@.take(k as int)));
            }
            assert(gone@.take(gone@.len() as int) =~= gone@);
            let mut i = self.players.entries.len();
            assert(es1.skip(es1.len() as int) =~= Seq::<(u64, Player)>::empty());
            assert(self.players.entries@ =~= es1.take(i as int) + without_addrs(es1.skip(i as int), gone@));
            while i > 0
                invariant
                    i <= es1.len(),
                    self.players.entries@ == es1.take(i as int) + without_addrs(es1.skip(i as int), gone@),
                    *final(self.players) == *final(old(self).players),
                    *final(self.login_info) == *final(old(self).login_info),
                    *self.login_info == info_now,
                    self.msg == old(self).msg,
                    self.quests == old(self).quests,
                    self.logins == old(self).logins,
                    action_views(self.out@) == kicked + disconnects(gone@),
                decreases i,
            {
                let k = i - 1;
                assert(es1.skip(k as int).drop_first() =~= es1.skip(i as int));
                assert(es1.skip(k as int)[0] == es1[k as int]);
                assert(self.players.entries@[k as int] == es1[k as int]);
                if has_addr(&gone, self.players.entries[k].0) {
                    let _dropped = self.players.entries.remove(k);
                }
                assert(self.players.entries@ =~= es1.take(k as int) + without_addrs(es1.skip(k as int), gone@));
                i = k;
            }
            assert(es1.skip(0) =~= es1);
            assert(self.players.entries@ =~= without_addrs(es1, gone@));
            return 99;
        }
        if next_before != 0 {
            match self.quests.get(&next_before) {
                Some(q) => {
                    self.out.push(Action::Send(wrap_message(addr, q.job.clone())));
                    assert(action_views(self.out@) =~= said.push(say(addr, q.job@)));
                    return 0;
                },
                None => {
                    return 99;
                },
            }
        }
        0
    }
}

}
