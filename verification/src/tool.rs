use std::collections::HashMap;
use vstd::prelude::*;
use vstd::string::*;

use crate::text::views;

verus! {

broadcast use {vstd::string::group_string_axioms, vstd::std_specs::hash::group_hash_axioms};

/// A login of the data files the setup tool writes.
pub struct Login {
    pub login_name: String,
    pub password: String,
}

impl Login {
    /// An empty login.
    pub fn new() -> (r: Self)
        ensures
            r.login_name@ == Seq::<char>::empty(),
            r.password@ == Seq::<char>::empty(),
    {
        Login { login_name: String::new(), password: String::new() }
    }
}

/// A player's role.
#[derive(PartialEq, Eq, Structural, Clone, Copy, Debug)]
pub enum Role {
    Warrior,
    Ranger,
    Magician,
}

/// The map a player is on.
#[derive(PartialEq, Eq, Structural, Clone, Copy, Debug)]
pub enum MapName {
    Liuxiu,
    Yangzhou,
}

/// A registered player as the setup tool writes it.
pub struct Player {
    pub name: String,
    pub fullname: String,
    pub group_name: String,
    pub friends: Vec<String>,
    pub map: MapName,
    pub pos: u32,
    pub level: u32,
    pub role: Role,
    pub physical: u32,
    pub mental: u32,
    pub offense: u32,
    pub defence: u32,
    pub hp: u32,
    pub mp: u32,
    pub fp: u32,
    pub xp: u32,
    pub max_hp: u32,
    pub max_mp: u32,
    pub max_fp: u32,
    pub max_xp: u32,
    pub hp_regen: u32,
    pub mp_regen: u32,
    pub accuracy: u32,
    pub avoidance: u32,
    pub timer_id: usize,
    pub climbing: usize,
    pub knocked: usize,
    pub opened: u32,
    pub sleep: u32,
    pub newbie_quest: HashMap<u32, bool>,
    pub newbie_next: u32,
    pub newbie_prompt: u32,
}

/// Whether a player holds the tool's starting values in everything but name, full name,
/// group, friends, level, health and mind.
pub open spec fn starting_rest(r: Player) -> bool {
    &&& r.map == MapName::Liuxiu
    &&& r.pos == 14
    &&& r.role == Role::Magician
    &&& r.physical == 0 && r.mental == 0 && r.offense == 0 && r.defence == 0
    &&& r.fp == 0 && r.xp == 0
    &&& r.max_hp == 100 && r.max_mp == 150 && r.max_fp == 200 && r.max_xp == 3000
    &&& r.hp_regen == 0 && r.mp_regen == 0 && r.accuracy == 0 && r.avoidance == 0
    &&& r.timer_id == 0 && r.climbing == 0 && r.knocked == 0 && r.opened == 0 && r.sleep == 0
    &&& r.newbie_quest@ == Map::<u32, bool>::empty()
    &&& r.newbie_next == 1
    &&& r.newbie_prompt == 0
}

/// Whether a player holds the values that `Player::new` gives.
pub open spec fn is_new_player(r: Player) -> bool {
    &&& r.name@ == Seq::<char>::empty()
    &&& r.fullname@ == Seq::<char>::empty()
    &&& r.group_name@ == Seq::<char>::empty()
    &&& r.friends@ == Seq::<String>::empty()
    &&& r.level == 1
    &&& r.hp == 0 && r.mp == 0
    &&& starting_rest(r)
}

impl Player {
    /// A player with the tool's starting values.
    pub fn new() -> (r: Self)
        ensures
            is_new_player(r),
    {
        Player {
            name: String::new(),
            fullname: String::new(),
            group_name: String::new(),
            friends: Vec::new(),
            map: MapName::Liuxiu,
            pos: 14,
            level: 1,
            role: Role::Magician,
            physical: 0,
            mental: 0,
            offense: 0,
            defence: 0,
            hp: 0,
            mp: 0,
            fp: 0,
            xp: 0,
            max_hp: 100,
            max_mp: 150,
            max_fp: 200,
            max_xp: 3000,
            hp_regen: 0,
            mp_regen: 0,
            accuracy: 0,
            avoidance: 0,
            timer_id: 0,
            climbing: 0,
            knocked: 0,
            opened: 0,
            sleep: 0,
            newbie_quest: HashMap::new(),
            newbie_next: 1,
            newbie_prompt: 0,
        }
    }
}

/// A group of players.
pub struct Group {
    pub name: String,
    pub members: Vec<String>,
}

impl Group {
    /// An unnamed group without members.
    pub fn new() -> (r: Self)
        ensures
            r.name@ == Seq::<char>::empty(),
            r.members@ == Seq::<String>::empty(),
    {
        Group { name: String::new(), members: Vec::new() }
    }
}

/// All groups.
pub struct Groups {
    pub group: Vec<Group>,
}

impl Groups {
    /// No groups.
    pub fn new() -> (r: Self)
        ensures
            r.group@ == Seq::<Group>::empty(),
    {
        Groups { group: Vec::new() }
    }
}

/// Whether a login has the given name and password.
pub open spec fn login_is(l: Login, name: Seq<char>, password: Seq<char>) -> bool {
    l.login_name@ == name && l.password@ == password
}

/// The logins the tool sets up: alice, bob, charlie and david, each with password `1`.
pub fn create_login() -> (r: Vec<Login>)
    ensures
        r@.len() == 4,
        login_is(r@[0], "alice"@, "1"@),
        login_is(r@[1], "bob"@, "1"@),
        login_is(r@[2], "charlie"@, "1"@),
        login_is(r@[3], "david"@, "1"@),
{
    let mut logins: Vec<Login> = Vec::new();
    let mut login1 = Login::new();
    let mut login2 = Login::new();
    let mut login3 = Login::new();
    let mut login4 = Login::new();
    login1.login_name = String::from_str("alice");
    login1.password = String::from_str("1");
    login2.login_name = String::from_str("bob");
    login2.password = String::from_str("1");
    login3.login_name = String::from_str("charlie");
    login3.password = String::from_str("1");
    login4.login_name = String::from_str("david");
    login4.password = String::from_str("1");
    logins.push(login1);
    logins.push(login2);
    logins.push(login3);
    logins.push(login4);
    logins
}

/// Whether a registered player of group `oak` has the given name, full name, friends,
/// level, health and mind, and the starting values otherwise.
pub open spec fn user_is(
    p: Player,
    name: Seq<char>,
    fullname: Seq<char>,
    friends: Seq<Seq<char>>,
    level: u32,
    hp: u32,
    mp: u32,
) -> bool {
    &&& p.name@ == name
    &&& p.fullname@ == fullname
    &&& views(p.friends@) == friends
    &&& p.group_name@ == "oak"@
    &&& p.level == level
    &&& p.hp == hp
    &&& p.mp == mp
    &&& starting_rest(p)
}

/// A registered player of group `oak` with the given values.
fn make_user(name: &str, fullname: &str, friends: Vec<String>, level: u32, hp: u32, mp: u32) -> (r: Player)
    ensures
        user_is(r, name@, fullname@, views(friends@), level, hp, mp),
{
    let mut p = Player::new();
    p.name = String::from_str(name);
    p.fullname = String::from_str(fullname);
    p.friends = friends;
    p.group_name = String::from_str("oak");
    p.level = level;
    p.hp = hp;
    p.mp = mp;
    p
}

/// A list of two names.
fn two_names(a: &str, b: &str) -> (r: Vec<String>)
    ensures
        views(r@) == seq![a@, b@],
{
    let mut v: Vec<String> = Vec::new();
    v.push(String::from_str(a));
    v.push(String::from_str(b));
    assert(views(v@) =~= seq![a@, b@]);
    v
}

/// A list of one name.
fn one_name(a: &str) -> (r: Vec<String>)
    ensures
        views(r@) == seq![a@],
{
    let mut v: Vec<String> = Vec::new();
    v.push(String::from_str(a));
    assert(views(v@) =~= seq![a@]);
    v
}

/// The registered players the tool sets up, all of group `oak`.
pub fn create_user() -> (r: Vec<Player>)
    ensures
        r@.len() == 4,
        user_is(r@[0], "alice"@, "西门吹雪"@, seq!["bob"@, "charlie"@], 2, 100, 100),
        user_is(r@[1], "bob"@, "小茶茶"@, seq!["charlie"@], 7, 10000, 90),
        user_is(r@[2], "charlie"@, "西山老妖"@, seq!["alice"@], 7, 1000, 100),
        user_is(r@[3], "david"@, "阿卡四十七"@, seq!["alice"@], 57, 100, 100),
{
    let mut players: Vec<Player> = Vec::new();
    players.push(make_user("alice", "西门吹雪", two_names("bob", "charlie"), 2, 100, 100));
    players.push(make_user("bob", "小茶茶", one_name("charlie"), 7, 10000, 90));
    players.push(make_user("charlie", "西山老妖", one_name("alice"), 7, 1000, 100));
    players.push(make_user("david", "阿卡四十七", one_name("alice"), 57, 100, 100));
    players
}

/// The groups the tool sets up: `oak`, with alice, bob, david and charlie.
pub fn create_groups() -> (r: Vec<Group>)
    ensures
        r@.len() == 1,
        r@[0].name@ == "oak"@,
        views(r@[0].members@) == seq!["alice"@, "bob"@, "david"@, "charlie"@],
{
    let mut gs: Vec<Group> = Vec::new();
    let mut g = Group::new();
    g.name = String::from_str("oak");
    g.members = Vec::new();
    g.members.push(String::from_str("alice"));
    g.members.push(String::from_str("bob"));
    g.members.push(String::from_str("david"));
    g.members.push(String::from_str("charlie"));
    assert(views(g.members@) =~= seq!["alice"@, "bob"@, "david"@, "charlie"@]);
    gs.push(g);
    gs
}

}
