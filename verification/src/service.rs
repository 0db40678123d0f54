use std::collections::HashMap;
use vstd::prelude::*;
use vstd::string::*;

use crate::action::{action_views, say, Action, ActionView};
use crate::channel::{wrap_message, Message, MessageType, MessageView};
use crate::command::Command;
use crate::laws::law_service_keeps_connections_unique;
use crate::command_chat::{chat_outcome, ChatCommand};
use crate::command_climb::{climb_command_outcome, ClimbCommand};
use crate::command_fight::{fight_outcome, fight_safe, fight_safe_exec, FightCommand};
use crate::command_friend::{list_actions, FriendCommand};
use crate::command_hp::{hp_outcome, HpCommand};
use crate::command_look::{look_command_outcome, LookCommand};
use crate::command_map::{map_actions, MapCommand};
use crate::command_quest::{quest_outcome, QuestCommand};
use crate::command_walk::{walk_outcome, WalkCommand};
use crate::factory_mapfiles::MapFiles;
use crate::login::{login_outcome, login_safe, login_safe_exec, LoginService};
use crate::map::Node;
use crate::player::{player_at, update_named, Group, Player, PlayerTable};
use crate::process::{PostProcess, ProcessNone};
use crate::process_climb::{after_lasting, lasting_safe, lasting_safe_exec, ProcessClimb};
use crate::process_fight::{fight_report_safe, fight_report_safe_exec, fought, ProcessFight};
use crate::process_quest::{
    find_quest_named, quest_applied, quest_key, quest_key_exec, quest_step_ready, quest_step_safe,
    ProcessQuest,
};
use crate::process_walk::{walk_marked, walk_safe, walk_safe_exec, walk_target, walked, ProcessWalk};
use crate::quest::Quest;
use crate::text::{contains, lower, split, str_eq, word_or, word_or_exec};

verus! {

broadcast use {vstd::string::group_string_axioms, vstd::std_specs::hash::group_hash_axioms};

/// A login name and its password.
pub struct Login {
    pub login_name: String,
    pub password: String,
}

impl Login {
    /// An empty login.
    pub fn new() -> (r: Self)
        ensures
            r.login_name@ == Seq::<char>::empty(),
            r.password@ == Seq::<char>::empty(),
    {
        Login { login_name: String::new(), password: String::new() }
    }
}

/// A connection's login state: who logs in, and whether they have.
pub struct LoginInfo {
    pub login: Login,
    pub b_login: bool,
}

/// Whether a login state is that of a connection nobody has logged in on yet.
pub open spec fn is_new_login_info(r: LoginInfo) -> bool {
    &&& r.login.login_name@ == Seq::<char>::empty()
    &&& r.login.password@ == Seq::<char>::empty()
    &&& !r.b_login
}

impl LoginInfo {
    /// Nobody logged in yet.
    pub fn new() -> (r: Self)
        ensures
            is_new_login_info(r),
    {
        LoginInfo { login: Login::new(), b_login: false }
    }
}

/// The game's commands, by the words that call them.
#[derive(PartialEq, Eq, Structural, Clone, Copy, Debug)]
pub enum CommandWord {
    Hp,
    Quest,
    Look,
    Fight,
    Walk,
    Climb,
    Chat,
    Friend,
    Gmcp,
}

/// The command a first word calls, if any: `hp`/`who`, `jq`/`jobquery`, the looking words,
/// `fight`, the eight directions, the lasting actions, `chat`/`` ` ``, `friend`/`group`
/// and `gmcp.localmap`.
pub open spec fn command_kind(key: Seq<char>) -> Option<CommandWord> {
    if key == "hp"@ || key == "who"@ {
        Some(CommandWord::Hp)
    } else if key == "jq"@ || key == "jobquery"@ {
        Some(CommandWord::Quest)
    } else if key == "l"@ || key == "ls"@ || key == "look"@ || key == "localmaps"@ || key == "lm"@
        || key == "list"@ || key == "startgmcp"@ || key == "xgmcp"@ {
        Some(CommandWord::Look)
    } else if key == "fight"@ {
        Some(CommandWord::Fight)
    } else if key == "e"@ || key == "w"@ || key == "s"@ || key == "n"@ || key == "ne"@ || key
        == "sw"@ || key == "se"@ || key == "nw"@ {
        Some(CommandWord::Walk)
    } else if key == "climb"@ || key == "knock"@ || key == "open"@ || key == "sleep"@ || key
        == "bath"@ {
        Some(CommandWord::Climb)
    } else if key == "chat"@ || key == "`"@ {
        Some(CommandWord::Chat)
    } else if key == "friend"@ || key == "group"@ {
        Some(CommandWord::Friend)
    } else if key == "gmcp.localmap"@ {
        Some(CommandWord::Gmcp)
    } else {
        None
    }
}

/// The command a first word calls (see `command_kind`).
pub fn command_word(key: &str) -> (r: Option<CommandWord>)
    ensures
        r == command_kind(key@),
{
    if str_eq(key, "hp") || str_eq(key, "who") {
        Some(CommandWord::Hp)
    } else if str_eq(key, "jq") || str_eq(key, "jobquery") {
        Some(CommandWord::Quest)
    } else if str_eq(key, "l") || str_eq(key, "ls") || str_eq(key, "look") || str_eq(key, "localmaps")
        || str_eq(key, "lm") || str_eq(key, "list") || str_eq(key, "startgmcp") || str_eq(key, "xgmcp") {
        Some(CommandWord::Look)
    } else if str_eq(key, "fight") {
        Some(CommandWord::Fight)
    } else if str_eq(key, "e") || str_eq(key, "w") || str_eq(key, "s") || str_eq(key, "n") || str_eq(
        key,
        "ne",
    ) || str_eq(key, "sw") || str_eq(key, "se") || str_eq(key, "nw") {
        Some(CommandWord::Walk)
    } else if str_eq(key, "climb") || str_eq(key, "knock") || str_eq(key, "open") || str_eq(key, "sleep")
        || str_eq(key, "bath") {
        Some(CommandWord::Climb)
    } else if str_eq(key, "chat") || str_eq(key, "`") {
        Some(CommandWord::Chat)
    } else if str_eq(key, "friend") || str_eq(key, "group") {
        Some(CommandWord::Friend)
    } else if str_eq(key, "gmcp.localmap") {
        Some(CommandWord::Gmcp)
    } else {
        None
    }
}

/// Where serving a message stopped because the server could not go on: the step that
/// could not run, having found what it needs missing or out of range.
#[derive(PartialEq, Eq, Structural, Clone, Copy, Debug)]
pub enum ServiceFault {
    /// A right password for a name no registered player has.
    Login,
    /// A command whose player is not on line, or whose numbers run out of range.
    Command,
    /// A fight answer whose numbers cannot be read.
    FightReport,
    /// A quest step whose place cannot be read or whose rewards run out of range.
    QuestStep,
    /// A walk answer whose place cannot be read.
    WalkReport,
    /// A lasting-action answer whose numbers cannot be read.
    LastingReport,
}

/// The game's state: each connection's login, the players on line, the map, the quests,
/// the map files, the next timer identifier, and the actions asked of the server.
pub struct Service {
    pub login_infos: Vec<(u64, LoginInfo)>,
    pub players: PlayerTable,
    pub nodes: HashMap<u32, Node>,
    pub quests: HashMap<u32, Quest>,
    pub mapfiles: MapFiles,
    pub next_id: usize,
    pub out: Vec<Action>,
}

/// The position of the first login state for connection `addr` at or after `i`.
pub open spec fn info_from(infos: Seq<(u64, LoginInfo)>, addr: u64, i: int) -> Option<int>
    decreases infos.len() - i,
{
    if i < 0 || i >= infos.len() {
        None
    } else if infos[i].0 == addr {
        Some(i)
    } else {
        info_from(infos, addr, i + 1)
    }
}

/// What a search from `i` finds: the first login state for the connection, or none.
pub proof fn lemma_info_from(infos: Seq<(u64, LoginInfo)>, addr: u64, i: int)
    requires
        0 <= i,
    ensures
        match info_from(infos, addr, i) {
            Some(k) => i <= k < infos.len() && infos[k].0 == addr,
            None => forall|j: int| i <= j < infos.len() ==> infos[j].0 != addr,
        },
    decreases infos.len() - i,
{
    if i < infos.len() && infos[i].0 != addr {
        lemma_info_from(infos, addr, i + 1);
    }
}

/// The login states with one for `addr`: unchanged when the connection has one, else with a
/// fresh one at the end.
pub open spec fn infos_seated(infos: Seq<(u64, LoginInfo)>, addr: u64, infos1: Seq<(u64, LoginInfo)>) -> bool {
    if info_from(infos, addr, 0) is Some {
        infos1 == infos
    } else {
        &&& infos1.len() == infos.len() + 1
        &&& infos1.drop_last() == infos
        &&& infos1.last().0 == addr
        &&& is_new_login_info(infos1.last().1)
    }
}

/// What the command needs of the players on line: the sender's player (for `chat`, only
/// when something follows the command word), and for `fight` health that can take the blows.
pub open spec fn command_ready(kind: CommandWord, es: Seq<(u64, Player)>, msg: MessageView) -> bool {
    match kind {
        CommandWord::Fight => fight_safe(es, msg),
        CommandWord::Chat => split(msg.content, seq![' ']).len() > 1 ==> player_at(es, msg.addr) is Some,
        _ => player_at(es, msg.addr) is Some,
    }
}

/// What running the command does (each command's own outcome), from the actions `before`
/// to `after`, answering `ret` and moving the next timer identifier from `id` to `id2`.
pub open spec fn command_ran(
    kind: CommandWord,
    es: Seq<(u64, Player)>,
    nodes: Map<u32, Node>,
    quests: Map<u32, Quest>,
    files: Map<Seq<char>, (Seq<char>, Seq<char>)>,
    msg: MessageView,
    users: Seq<Player>,
    groups: Seq<Group>,
    id: usize,
    before: Seq<ActionView>,
    after: Seq<ActionView>,
    ret: Seq<char>,
    id2: usize,
) -> bool {
    match kind {
        CommandWord::Hp => hp_outcome(es, msg, before, after, ret) && id2 == id,
        CommandWord::Quest => quest_outcome(es, quests, msg, before, after, ret) && id2 == id,
        CommandWord::Look => look_command_outcome(es, nodes, msg, before, after, ret) && id2 == id,
        CommandWord::Fight => fight_outcome(es, msg, id, before, after, ret, id2),
        CommandWord::Walk => (exists|np: u32| walk_outcome(es, nodes, msg, before, after, ret, 0, np))
            && id2 == id,
        CommandWord::Climb => climb_command_outcome(es, nodes, msg, id, before, after, ret, id2),
        CommandWord::Chat => (exists|ps2: Seq<Player>, ch: Seq<char>|
            chat_outcome(es, users, msg, before, after, ret, ps2, Seq::<char>::empty(), ch)) && id2
            == id,
        CommandWord::Friend => {
            &&& ret == msg.content
            &&& after == list_actions(es, groups, msg, lower(msg.content), msg.addr, before)
            &&& id2 == id
        },
        CommandWord::Gmcp => {
            &&& ret == msg.content
            &&& after == map_actions(es, nodes, files, msg, msg.addr, before)
            &&& id2 == id
        },
    }
}

/// The players after the fight step.
pub open spec fn fight_stage(es: Seq<(u64, Player)>, name: Seq<char>, ret: Seq<char>) -> Seq<(u64, Player)> {
    let words = split(ret, seq![' ']);
    if contains(ret, "fight"@) && words.len() >= 5 {
        fought(es, name, words)
    } else {
        es
    }
}

/// The players after the walk step.
pub open spec fn walk_stage(es: Seq<(u64, Player)>, name: Seq<char>, ret: Seq<char>) -> Seq<(u64, Player)> {
    if walk_marked(ret) {
        update_named(es, name, |p: Player| walked(p, walk_target(ret)))
    } else {
        es
    }
}

/// The quest step: nothing without a player on the connection or a quest of the answer's
/// name; else a step of one quest of that name, which fails when it cannot be taken.
pub open spec fn quest_stage(
    es: Seq<(u64, Player)>,
    quests: Map<u32, Quest>,
    addr: u64,
    name: Seq<char>,
    ret: Seq<char>,
    before: Seq<ActionView>,
    after: Seq<ActionView>,
    es2: Seq<(u64, Player)>,
    failed: bool,
) -> bool {
    let key = quest_key(ret);
    if player_at(es, addr) is None || (forall|k: u32| quests.contains_key(k) ==> quests[k].name@ != key) {
        !failed && after == before && es2 == es
    } else {
        exists|k: u32|
            #![trigger quests[k]]
            quests.contains_key(k) && quests[k].name@ == key && if quest_step_safe(
                es,
                quests,
                addr,
                name,
                ret,
                quests[k]@,
            ) {
                !failed && quest_applied(es, quests, addr, name, ret, quests[k]@, before, after, es2)
            } else {
                failed
            }
    }
}

/// The steps after a command answered `ret`: fight, quest, walk, lasting action, and the
/// notice for an unknown command, each failing when it cannot run.
pub open spec fn steps_served(
    es: Seq<(u64, Player)>,
    quests: Map<u32, Quest>,
    addr: u64,
    name: Seq<char>,
    ret: Seq<char>,
    before: Seq<ActionView>,
    after: Seq<ActionView>,
    es_f: Seq<(u64, Player)>,
    r: Result<u32, ServiceFault>,
) -> bool {
    if !fight_report_safe(es, name, ret) {
        r == Err::<u32, ServiceFault>(ServiceFault::FightReport)
    } else {
        let es1 = fight_stage(es, name, ret);
        exists|acts2: Seq<ActionView>, es2: Seq<(u64, Player)>, failed: bool|
            #![trigger quest_stage(es1, quests, addr, name, ret, before, acts2, es2, failed)]
            quest_stage(es1, quests, addr, name, ret, before, acts2, es2, failed) && if failed {
                r == Err::<u32, ServiceFault>(ServiceFault::QuestStep)
            } else if !walk_safe(es2, name, ret) {
                r == Err::<u32, ServiceFault>(ServiceFault::WalkReport)
            } else {
                let es3 = walk_stage(es2, name, ret);
                if !lasting_safe(es3, name, ret) {
                    r == Err::<u32, ServiceFault>(ServiceFault::LastingReport)
                } else {
                    &&& r == Ok::<u32, ServiceFault>(0)
                    &&& es_f == after_lasting(es3, name, ret)
                    &&& after == if ret == "none"@ {
                        acts2.push(say(addr, "There is no match command."@))
                    } else {
                        acts2
                    }
                }
            }
    }
}

/// What serving a message does. A timer message changes nothing. Otherwise the connection
/// gets a login state; while it is not logged in the message is a login step; once it is,
/// the message's first word picks a command (an unknown word is answered with a question),
/// and the steps after the command follow. The answer is the login step's, else 0; or the
/// step that could not run.
pub open spec fn served(
    s: Service,
    s2: Service,
    msg: MessageView,
    logins: Seq<Login>,
    users: Seq<Player>,
    groups: Seq<Group>,
    r: Result<u32, ServiceFault>,
) -> bool {
    let addr = msg.addr;
    let es = s.players.entries@;
    let before = action_views(s.out@);
    let after = action_views(s2.out@);
    &&& s2.nodes == s.nodes
    &&& s2.quests == s.quests
    &&& s2.mapfiles == s.mapfiles
    &&& if msg.msg_type == MessageType::Timer {
        &&& r == Ok::<u32, ServiceFault>(0)
        &&& s2.login_infos@ == s.login_infos@
        &&& s2.players == s.players
        &&& s2.next_id == s.next_id
        &&& after == before
    } else {
        exists|infos1: Seq<(u64, LoginInfo)>|
            #![trigger infos_seated(s.login_infos@, addr, infos1)]
            infos_seated(s.login_infos@, addr, infos1) && {
                let k = info_from(infos1, addr, 0).unwrap();
                let info = infos1[k].1;
                if !info.b_login {
                    if !login_safe(logins, users, info, msg.content) {
                        r == Err::<u32, ServiceFault>(ServiceFault::Login)
                    } else {
                        exists|code: u32, info2: LoginInfo|
                            #![trigger login_outcome(es, logins, users, s.quests@, msg, info, before, after, code, s2.players.entries@, info2)]
                            {
                                &&& r == Ok::<u32, ServiceFault>(code)
                                &&& login_outcome(
                                    es,
                                    logins,
                                    users,
                                    s.quests@,
                                    msg,
                                    info,
                                    before,
                                    after,
                                    code,
                                    s2.players.entries@,
                                    info2,
                                )
                                &&& s2.login_infos@ == infos1.update(k, (addr, info2))
                                &&& s2.next_id == s.next_id
                            }
                    }
                } else {
                    &&& s2.login_infos@ == infos1
                    &&& match command_kind(word_or(msg.content, 0, "none"@)) {
                        None => {
                            &&& r == Ok::<u32, ServiceFault>(0)
                            &&& after == before.push(say(addr, "要做什么?"@))
                            &&& s2.players == s.players
                            &&& s2.next_id == s.next_id
                        },
                        Some(kind) => if !command_ready(kind, es, msg) {
                            r == Err::<u32, ServiceFault>(ServiceFault::Command)
                        } else {
                            exists|ret: Seq<char>, acts1: Seq<ActionView>|
                                #![trigger command_ran(kind, es, s.nodes@, s.quests@, s.mapfiles@, msg, users, groups, s.next_id, before, acts1, ret, s2.next_id)]
                                command_ran(
                                    kind,
                                    es,
                                    s.nodes@,
                                    s.quests@,
                                    s.mapfiles@,
                                    msg,
                                    users,
                                    groups,
                                    s.next_id,
                                    before,
                                    acts1,
                                    ret,
                                    s2.next_id,
                                ) && steps_served(
                                    es,
                                    s.quests@,
                                    addr,
                                    info.login.login_name@,
                                    ret,
                                    acts1,
                                    after,
                                    s2.players.entries@,
                                    r,
                                )
                        },
                    }
                }
            }
    }
}

/// A search from `i` finds what a search from `j` finds when no state in between is for
/// the connection.
pub proof fn lemma_info_from_skip(infos: Seq<(u64, LoginInfo)>, addr: u64, i: int, j: int)
    requires
        0 <= i <= j <= infos.len(),
        forall|m: int| i <= m < j ==> infos[m].0 != addr,
    ensures
        info_from(infos, addr, i) == info_from(infos, addr, j),
    decreases j - i,
{
    if i < j {
        lemma_info_from_skip(infos, addr, i + 1, j);
    }
}

impl Service {
    /// A game with the given map, quests and map files, nobody connected, and timer
    /// identifiers from 1.
    pub fn new(nodes: HashMap<u32, Node>, quests: HashMap<u32, Quest>, mapfiles: MapFiles) -> (r: Self)
        ensures
            r.login_infos@ == Seq::<(u64, LoginInfo)>::empty(),
            r.players.entries@ == Seq::<(u64, Player)>::empty(),
            r.players.wf(),
            r.nodes == nodes,
            r.quests == quests,
            r.mapfiles == mapfiles,
            r.next_id == 1,
            r.out@ == Seq::<Action>::empty(),
    {
        Service {
            login_infos: Vec::new(),
            players: PlayerTable::new(),
            nodes,
            quests,
            mapfiles,
            next_id: 1,
            out: Vec::new(),
        }
    }

    /// Gives connection `addr` a login state if it has none, and says where it is.
    fn seat_login(&mut self, addr: u64) -> (k: usize)
        ensures
            infos_seated(old(self).login_infos@, addr, final(self).login_infos@),
            info_from(final(self).login_infos@, addr, 0) == Some(k as int),
            final(self).players == old(self).players,
            final(self).nodes == old(self).nodes,
            final(self).quests == old(self).quests,
            final(self).mapfiles == old(self).mapfiles,
            final(self).next_id == old(self).next_id,
            final(self).out == old(self).out,
    {
        let ghost infos = self.login_infos@;
        let mut i: usize = 0;
        while i < self.login_infos.len()
            invariant
                i <= infos.len(),
                self.login_infos@ == infos,
                self.players == old(self).players,
                self.nodes == old(self).nodes,
                self.quests == old(self).quests,
                self.mapfiles == old(self).mapfiles,
                self.next_id == old(self).next_id,
                self.out == old(self).out,
                infos == old(self).login_infos@,
                forall|m: int| 0 <= m < i ==> infos[m].0 != addr,
            decreases infos.len() - i,
        {
            if self.login_infos[i].0 == addr {
                proof {
                    lemma_info_from_skip(infos, addr, 0, i as int);
                }
                return i;
            }
            i += 1;
        }
        proof {
            lemma_info_from_skip(infos, addr, 0, infos.len() as int);
        }
        let n = self.login_infos.len();
        self.login_infos.push((addr, LoginInfo::new()));
        proof {
            let infos1 = self.login_infos@;
            assert(infos1.drop_last() =~= infos);
            assert forall|m: int| 0 <= m < n implies infos1[m].0 != addr by {
                assert(infos1[m] == infos[m]);
            }
            lemma_info_from_skip(infos1, addr, 0, n as int);
        }
        n
    }

    /// Whether the command can run (see `command_ready`).
    fn command_ready_exec(&self, kind: CommandWord, msg: &Message) -> (b: bool)
        ensures
            b == command_ready(kind, self.players.entries@, msg@),
    {
        match kind {
            CommandWord::Fight => fight_safe_exec(&self.players, msg),
            CommandWord::Chat => {
                proof {
                    reveal_strlit(" ");
                    assert(" "@ =~= seq![' ']);
                }
                let words = crate::text::split_str(msg.content.as_str(), " ");
                words.len() <= 1 || self.players.get(msg.addr).is_some()
            },
            _ => self.players.get(msg.addr).is_some(),
        }
    }

    /// Runs the command the word calls (see `command_ran`); the players stay as they are.
    fn run_command(&mut self, kind: CommandWord, msg: &Message, users: Vec<Player>, groups: Vec<Group>) -> (ret: String)
        requires
            command_ready(kind, old(self).players.entries@, msg@),
        ensures
            command_ran(
                kind,
                old(self).players.entries@,
                old(self).nodes@,
                old(self).quests@,
                old(self).mapfiles@,
                msg@,
                users@,
                groups@,
                old(self).next_id,
                action_views(old(self).out@),
                action_views(final(self).out@),
                ret@,
                final(self).next_id,
            ),
            final(self).login_infos == old(self).login_infos,
            final(self).players == old(self).players,
            final(self).nodes == old(self).nodes,
            final(self).quests == old(self).quests,
            final(self).mapfiles == old(self).mapfiles,
    {
        match kind {
            CommandWord::Hp => {
                let mut c = HpCommand::new(&self.players, msg);
                std::mem::swap(&mut self.out, &mut c.out);
                let ret = c.execute();
                std::mem::swap(&mut self.out, &mut c.out);
                ret
            },
            CommandWord::Quest => {
                let mut c = QuestCommand::new(&self.players, msg, &self.quests);
                std::mem::swap(&mut self.out, &mut c.out);
                let ret = c.execute();
                std::mem::swap(&mut self.out, &mut c.out);
                ret
            },
            CommandWord::Look => {
                let mut c = LookCommand::new(&self.players, msg, &self.nodes);
                std::mem::swap(&mut self.out, &mut c.out);
                let ret = c.execute();
                std::mem::swap(&mut self.out, &mut c.out);
                ret
            },
            CommandWord::Fight => {
                let mut c = FightCommand::new(&self.players, msg, self.next_id);
                std::mem::swap(&mut self.out, &mut c.out);
                let ret = c.execute();
                std::mem::swap(&mut self.out, &mut c.out);
                self.next_id = c.next_id;
                ret
            },
            CommandWord::Walk => {
                let mut c = WalkCommand::new(&self.players, msg, &self.nodes);
                std::mem::swap(&mut self.out, &mut c.out);
                let ret = c.execute();
                std::mem::swap(&mut self.out, &mut c.out);
                proof {
                    let np = c.new_pos;
                    assert(walk_outcome(
                        old(self).players.entries@,
                        old(self).nodes@,
                        msg@,
                        action_views(old(self).out@),
                        action_views(self.out@),
                        ret@,
                        0,
                        np,
                    ));
                }
                ret
            },
            CommandWord::Climb => {
                let mut c = ClimbCommand::new(&self.players, msg, &self.nodes, self.next_id);
                std::mem::swap(&mut self.out, &mut c.out);
                let ret = c.execute();
                std::mem::swap(&mut self.out, &mut c.out);
                self.next_id = c.next_id;
                ret
            },
            CommandWord::Chat => {
                let mut c = ChatCommand::new(&self.players, msg, users);
                std::mem::swap(&mut self.out, &mut c.out);
                let ret = c.execute();
                std::mem::swap(&mut self.out, &mut c.out);
                proof {
                    let ps2 = c.ps@;
                    let ch = c.msg_type@;
                    assert(chat_outcome(
                        old(self).players.entries@,
                        users@,
                        msg@,
                        action_views(old(self).out@),
                        action_views(self.out@),
                        ret@,
                        ps2,
                        Seq::<char>::empty(),
                        ch,
                    ));
                }
                ret
            },
            CommandWord::Friend => {
                let mut c = FriendCommand::new(&self.players, msg, groups);
                std::mem::swap(&mut self.out, &mut c.out);
                let ret = c.execute();
                std::mem::swap(&mut self.out, &mut c.out);
                ret
            },
            CommandWord::Gmcp => {
                let mut c = MapCommand::new(&self.players, msg, &self.nodes, &self.mapfiles);
                std::mem::swap(&mut self.out, &mut c.out);
                let ret = c.execute();
                std::mem::swap(&mut self.out, &mut c.out);
                ret
            },
        }
    }

    /// Runs the steps after a command that answered `ret`, for the player logged in as
    /// `info` (see `steps_served`).
    fn run_steps(&mut self, info: &LoginInfo, msg: &Message, ret: &String) -> (r: Result<u32, ServiceFault>)
        ensures
            steps_served(
                old(self).players.entries@,
                old(self).quests@,
                msg.addr,
                info.login.login_name@,
                ret@,
                action_views(old(self).out@),
                action_views(final(self).out@),
                final(self).players.entries@,
                r,
            ),
            final(self).login_infos == old(self).login_infos,
            final(self).nodes == old(self).nodes,
            final(self).quests == old(self).quests,
            final(self).mapfiles == old(self).mapfiles,
            final(self).next_id == old(self).next_id,
    {
        let ghost es = self.players.entries@;
        let ghost name = info.login.login_name@;
        let ghost before = action_views(self.out@);
        let addr = msg.addr;
        if !fight_report_safe_exec(&self.players.entries, info.login.login_name.as_str(), ret.as_str()) {
            return Err(ServiceFault::FightReport);
        }
        {
            let mut pf = ProcessFight::new(ret.clone(), &mut self.players, info, msg);
            let _answer = pf.execute();
        }
        let ghost es1 = self.players.entries@;
        assert(es1 == fight_stage(es, name, ret@));
        let mut failed = false;
        {
            let mut pq = ProcessQuest::new(ret.clone(), &self.quests, &mut self.players, info, msg);
            std::mem::swap(&mut self.out, &mut pq.out);
            if pq.players.get(addr).is_some() {
                let key = quest_key_exec(ret.as_str());
                match find_quest_named(&self.quests, key.as_str()) {
                    Some(q) => {
                        let ghost k = choose|k: u32|
                            self.quests@.contains_key(k) && self.quests@[k] == *q && q.name@ == key@;
                        if quest_step_ready(&*pq.players, &self.quests, addr, info.login.login_name.as_str(), ret.as_str(), q) {
                            let _answer = pq.apply_quest(q);
                        } else {
                            failed = true;
                        }
                    },
                    None => {},
                }
            }
            std::mem::swap(&mut self.out, &mut pq.out);
        }
        let ghost es2 = self.players.entries@;
        let ghost acts2 = action_views(self.out@);
        assert(quest_stage(es1, self.quests@, addr, name, ret@, before, acts2, es2, failed));
        if failed {
            return Err(ServiceFault::QuestStep);
        }
        if !walk_safe_exec(&self.players.entries, info.login.login_name.as_str(), ret.as_str()) {
            return Err(ServiceFault::WalkReport);
        }
        {
            let mut pw = ProcessWalk::new(ret.clone(), &mut self.players, info, msg);
            let _answer = pw.execute();
        }
        if !lasting_safe_exec(&self.players.entries, info.login.login_name.as_str(), ret.as_str()) {
            return Err(ServiceFault::LastingReport);
        }
        {
            let mut pc = ProcessClimb::new(ret.clone(), &mut self.players, info, msg);
            let _answer = pc.execute();
        }
        {
            let mut pn = ProcessNone::new(ret.clone(), msg);
            std::mem::swap(&mut self.out, &mut pn.out);
            let _answer = pn.execute();
            std::mem::swap(&mut self.out, &mut pn.out);
        }
        Ok(0)
    }

    /// A login step for connection state `k` (see `login_outcome`), unless it cannot run.
    fn serve_login(&mut self, k: usize, msg: &Message, logins: &Vec<Login>, users: Vec<Player>) -> (r: Result<u32, ServiceFault>)
        requires
            k < old(self).login_infos@.len(),
        ensures
            final(self).nodes == old(self).nodes,
            final(self).quests == old(self).quests,
            final(self).mapfiles == old(self).mapfiles,
            ({
                let info = old(self).login_infos@[k as int].1;
                if !login_safe(logins@, users@, info, msg@.content) {
                    r == Err::<u32, ServiceFault>(ServiceFault::Login)
                } else {
                    exists|code: u32, info2: LoginInfo|
                        #![trigger login_outcome(old(self).players.entries@, logins@, users@, old(self).quests@, msg@, info, action_views(old(self).out@), action_views(final(self).out@), code, final(self).players.entries@, info2)]
                        {
                            &&& r == Ok::<u32, ServiceFault>(code)
                            &&& login_outcome(
                                old(self).players.entries@,
                                logins@,
                                users@,
                                old(self).quests@,
                                msg@,
                                info,
                                action_views(old(self).out@),
                                action_views(final(self).out@),
                                code,
                                final(self).players.entries@,
                                info2,
                            )
                            &&& final(self).login_infos@ == old(self).login_infos@.update(
                                k as int,
                                (old(self).login_infos@[k as int].0, info2),
                            )
                            &&& final(self).next_id == old(self).next_id
                        }
                }
            }),
    {
        let (a, mut info) = self.login_infos.remove(k);
        if !login_safe_exec(logins, &users, &info, msg.content.as_str()) {
            self.login_infos.insert(k, (a, info));
            return Err(ServiceFault::Login);
        }
        let ghost info0 = info;
        assert(info0 == old(self).login_infos@[k as int].1);
        assert(a == old(self).login_infos@[k as int].0);
        assert(login_safe(logins@, users@, info0, msg@.content));
        let code;
        {
            let mut ls = LoginService::new(&mut info, msg, &mut self.players, &self.quests, logins, users);
            std::mem::swap(&mut self.out, &mut ls.out);
            code = ls.do_login();
            std::mem::swap(&mut self.out, &mut ls.out);
        }
        assert(login_outcome(
            old(self).players.entries@,
            logins@,
            users@,
            old(self).quests@,
            msg@,
            info0,
            action_views(old(self).out@),
            action_views(self.out@),
            code,
            self.players.entries@,
            info,
        ));
        let ghost info_after = info;
        self.login_infos.insert(k, (a, info));
        assert(self.login_infos@ =~= old(self).login_infos@.update(k as int, (a, info_after)));
        assert({
            &&& login_outcome(
                old(self).players.entries@,
                logins@,
                users@,
                old(self).quests@,
                msg@,
                old(self).login_infos@[k as int].1,
                action_views(old(self).out@),
                action_views(self.out@),
                code,
                self.players.entries@,
                info_after,
            )
            &&& self.login_infos@ == old(self).login_infos@.update(
                k as int,
                (old(self).login_infos@[k as int].0, info_after),
            )
            &&& self.next_id == old(self).next_id
        });
        Ok(code)
    }

    /// Serves one message from a client (see `served`). `logins` and `users` are the known
    /// logins and registered players, `groups` the groups, as read from their files.
    pub fn on_service(
        &mut self,
        msg: &Message,
        logins: &Vec<Login>,
        users: Vec<Player>,
        groups: Vec<Group>,
    ) -> (r: Result<u32, ServiceFault>)
        ensures
            served(*old(self), *final(self), msg@, logins@, users@, groups@, r),
            r is Ok && old(self).players.wf() ==> final(self).players.wf(),
    {
        let ghost s0 = *self;
        let ghost users_v = users@;
        let ghost groups_v = groups@;
        let r = self.serve_message(msg, logins, users, groups);
        proof {
            if r is Ok && s0.players.wf() {
                law_service_keeps_connections_unique(s0, *self, msg@, logins@, users_v, groups_v, r);
            }
        }
        r
    }

    /// Serves one message (see `served`).
    fn serve_message(
        &mut self,
        msg: &Message,
        logins: &Vec<Login>,
        users: Vec<Player>,
        groups: Vec<Group>,
    ) -> (r: Result<u32, ServiceFault>)
        ensures
            served(*old(self), *final(self), msg@, logins@, users@, groups@, r),
    {
        if msg.msg_type == MessageType::Timer {
            return Ok(0);
        }
        let ghost s0 = *self;
        let k = self.seat_login(msg.addr);
        let ghost infos1 = self.login_infos@;
        proof {
            lemma_info_from(infos1, msg.addr, 0);
        }
        if !self.login_infos[k].1.b_login {
            let r = self.serve_login(k, msg, logins, users);
            return r;
        }
        let key = word_or_exec(msg.content.as_str(), 0, "none");
        let kind = match command_word(key.as_str()) {
            None => {
                let ghost before = action_views(self.out@);
                self.out.push(Action::Send(wrap_message(msg.addr, String::from_str("要做什么?"))));
                assert(action_views(self.out@) =~= before.push(say(msg.addr, "要做什么?"@)));
                return Ok(0);
            },
            Some(kind) => kind,
        };
        if !self.command_ready_exec(kind, msg) {
            return Err(ServiceFault::Command);
        }
        let ghost s1 = *self;
        let ghost users_v = users@;
        let ghost groups_v = groups@;
        let ret = self.run_command(kind, msg, users, groups);
        let ghost acts1 = action_views(self.out@);
        let ghost id1 = self.next_id;
        let (a, info) = self.login_infos.remove(k);
        let r = self.run_steps(&info, msg, &ret);
        self.login_infos.insert(k, (a, info));
        assert(self.login_infos@ =~= infos1);
        proof {
            assert(command_ran(
                kind,
                s0.players.entries@,
                s0.nodes@,
                s0.quests@,
                s0.mapfiles@,
                msg@,
                users_v,
                groups_v,
                s0.next_id,
                action_views(s0.out@),
                acts1,
                ret@,
                self.next_id,
            ));
            assert(infos1[k as int].1 == info);
            assert(steps_served(
                s0.players.entries@,
                s0.quests@,
                msg.addr,
                infos1[k as int].1.login.login_name@,
                ret@,
                acts1,
                action_views(self.out@),
                self.players.entries@,
                r,
            ));
        }
        r
    }
}

}
