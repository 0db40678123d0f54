use std::collections::HashMap;
use vstd::prelude::*;
use vstd::string::*;

use crate::text::{str_eq, views};

verus! {

broadcast use vstd::string::group_string_axioms;

/// A player's role.
#[derive(PartialEq, Eq, Structural, Clone, Copy, Debug)]
pub enum Role {
    Warrior,
    Ranger,
    Magician,
}

/// The map a player is on.
#[derive(PartialEq, Eq, Structural, Clone, Copy, Debug)]
pub enum MapName {
    Liuxiu,
    Yangzhou,
}

/// A player's powers.
pub struct Powers {}

/// What a player carries.
pub struct Inventory {
    pub goods: Vec<u32>,
}

/// What a player wears.
pub struct Equipment {
    pub head: u32,
    pub hands: u32,
    pub torso: u32,
    pub artifact: u32,
    pub ring_left: u32,
    pub ring_right: u32,
    pub main_hand: u32,
    pub off_hand: u32,
    pub feet: u32,
}

/// A player.
pub struct Player {
    pub name: String,
    pub fullname: String,
    pub group_name: String,
    pub friends: Vec<String>,
    pub map: MapName,
    pub pos: u32,
    pub level: u32,
    pub role: Role,
    pub physical: u32,
    pub mental: u32,
    pub offense: u32,
    pub defence: u32,
    pub hp: i32,
    pub mp: u32,
    pub fp: u32,
    pub xp: u32,
    pub sp: u32,
    pub max_hp: u32,
    pub max_mp: u32,
    pub max_fp: u32,
    pub max_xp: u32,
    pub hp_regen: u32,
    pub mp_regen: u32,
    pub accuracy: u32,
    pub avoidance: u32,
    pub timer_id: usize,
    pub climbing: u32,
    pub knocked: u32,
    pub opened: u32,
    pub sleep: u32,
    pub newbie_quest: HashMap<u32, bool>,
    pub newbie_next: u32,
    pub newbie_prompt: u32,
}

/// Whether two players hold the same values in every field.
pub open spec fn same_player(a: Player, b: Player) -> bool {
    &&& a.name@ == b.name@
    &&& a.fullname@ == b.fullname@
    &&& a.group_name@ == b.group_name@
    &&& views(a.friends@) == views(b.friends@)
    &&& a.map == b.map
    &&& a.pos == b.pos
    &&& a.level == b.level
    &&& a.role == b.role
    &&& a.physical == b.physical
    &&& a.mental == b.mental
    &&& a.offense == b.offense
    &&& a.defence == b.defence
    &&& a.hp == b.hp
    &&& a.mp == b.mp
    &&& a.fp == b.fp
    &&& a.xp == b.xp
    &&& a.sp == b.sp
    &&& a.max_hp == b.max_hp
    &&& a.max_mp == b.max_mp
    &&& a.max_fp == b.max_fp
    &&& a.max_xp == b.max_xp
    &&& a.hp_regen == b.hp_regen
    &&& a.mp_regen == b.mp_regen
    &&& a.accuracy == b.accuracy
    &&& a.avoidance == b.avoidance
    &&& a.timer_id == b.timer_id
    &&& a.climbing == b.climbing
    &&& a.knocked == b.knocked
    &&& a.opened == b.opened
    &&& a.sleep == b.sleep
    &&& a.newbie_quest@ == b.newbie_quest@
    &&& a.newbie_next == b.newbie_next
    &&& a.newbie_prompt == b.newbie_prompt
}

/// A copy of a list of names.
pub fn clone_names(v: &Vec<String>) -> (r: Vec<String>)
    ensures
        views(r@) == views(v@),
{
    let mut r: Vec<String> = Vec::new();
    let mut i: usize = 0;
    while i < v.len()
        invariant
            i <= v@.len(),
            views(r@) == views(v@).take(i as int),
        decreases v@.len() - i,
    {
        let c = v[i].clone();
        assert(c@ == v@[i as int]@);
        let ghost old_r = r@;
        r.push(c);
        assert(views(r@) =~= views(old_r).push(c@));
        i += 1;
        assert(views(r@) =~= views(v@).take(i as int));
    }
    assert(views(v@).take(v@.len() as int) =~= views(v@));
    r
}

/// Whether a player holds the starting values that `Player::new` gives.
pub open spec fn is_new_player(r: Player) -> bool {
    &&& r.name@ == "成王败寇"@
    &&& r.fullname@ == Seq::<char>::empty()
    &&& r.group_name@ == Seq::<char>::empty()
    &&& r.friends@ == Seq::<String>::empty()
    &&& r.level == 1
    &&& r.map == MapName::Liuxiu
    &&& r.pos == 1
    &&& r.role == Role::Magician
    &&& r.physical == 0 && r.mental == 0 && r.offense == 0 && r.defence == 0
    &&& r.hp == 0 && r.mp == 0 && r.fp == 0 && r.xp == 0 && r.sp == 0
    &&& r.max_hp == 100 && r.max_mp == 100 && r.max_fp == 100 && r.max_xp == 0
    &&& r.hp_regen == 0 && r.mp_regen == 0 && r.accuracy == 0 && r.avoidance == 0
    &&& r.timer_id == 0 && r.climbing == 0 && r.knocked == 0 && r.opened == 0 && r.sleep == 0
    &&& r.newbie_quest@ == Map::<u32, bool>::empty()
    &&& r.newbie_next == 1
    &&& r.newbie_prompt == 0
}

impl Player {
    /// A new player with the starting values.
    pub fn new() -> (r: Self)
        ensures
            is_new_player(r),
    {
        Player {
            name: String::from_str("成王败寇"),
            fullname: String::new(),
            group_name: String::new(),
            friends: Vec::new(),
            level: 1,
            map: MapName::Liuxiu,
            pos: 1,
            role: Role::Magician,
            physical: 0,
            mental: 0,
            offense: 0,
            defence: 0,
            hp: 0,
            mp: 0,
            fp: 0,
            xp: 0,
            sp: 0,
            max_hp: 100,
            max_mp: 100,
            max_fp: 100,
            max_xp: 0,
            hp_regen: 0,
            mp_regen: 0,
            accuracy: 0,
            avoidance: 0,
            timer_id: 0,
            climbing: 0,
            knocked: 0,
            opened: 0,
            sleep: 0,
            newbie_quest: HashMap::new(),
            newbie_next: 1,
            newbie_prompt: 0,
        }
    }

    /// A copy of this player.
    pub fn copy(&self) -> (r: Player)
        ensures
            same_player(r, *self),
    {
        Player {
            name: self.name.clone(),
            fullname: self.fullname.clone(),
            group_name: self.group_name.clone(),
            friends: clone_names(&self.friends),
            map: self.map,
            pos: self.pos,
            level: self.level,
            role: self.role,
            physical: self.physical,
            mental: self.mental,
            offense: self.offense,
            defence: self.defence,
            hp: self.hp,
            mp: self.mp,
            fp: self.fp,
            xp: self.xp,
            sp: self.sp,
            max_hp: self.max_hp,
            max_mp: self.max_mp,
            max_fp: self.max_fp,
            max_xp: self.max_xp,
            hp_regen: self.hp_regen,
            mp_regen: self.mp_regen,
            accuracy: self.accuracy,
            avoidance: self.avoidance,
            timer_id: self.timer_id,
            climbing: self.climbing,
            knocked: self.knocked,
            opened: self.opened,
            sleep: self.sleep,
            newbie_quest: self.newbie_quest.clone(),
            newbie_next: self.newbie_next,
            newbie_prompt: self.newbie_prompt,
        }
    }
}

/// A group of players.
pub struct Group {
    pub name: String,
    pub members: Vec<String>,
}

impl Group {
    /// An unnamed group without members.
    pub fn new() -> (r: Self)
        ensures
            r.name@ == Seq::<char>::empty(),
            r.members@ == Seq::<String>::empty(),
    {
        Group { name: String::new(), members: Vec::new() }
    }
}

/// All groups.
pub struct Groups {
    pub group: Vec<Group>,
}

impl Groups {
    /// No groups.
    pub fn new() -> (r: Self)
        ensures
            r.group@ == Seq::<Group>::empty(),
    {
        Groups { group: Vec::new() }
    }
}


/// Whether some entry is for a player named `name`.
pub open spec fn has_named(es: Seq<(u64, Player)>, name: Seq<char>) -> bool {
    exists|i: int| 0 <= i < es.len() && es[i].1.name@ == name
}

/// Whether `i` is the first position of an entry for a player named `name`.
pub open spec fn first_named_at(es: Seq<(u64, Player)>, name: Seq<char>, i: int) -> bool {
    &&& 0 <= i < es.len()
    &&& es[i].1.name@ == name
    &&& forall|j: int| 0 <= j < i ==> es[j].1.name@ != name
}

/// The entries with every player named `name` replaced by `f` of that player.
pub open spec fn update_named(
    es: Seq<(u64, Player)>,
    name: Seq<char>,
    f: spec_fn(Player) -> Player,
) -> Seq<(u64, Player)> {
    es.map_values(|e: (u64, Player)| if e.1.name@ == name { (e.0, f(e.1)) } else { e })
}

/// The players on line, each with the connection it plays on. Lookups by connection use the
/// first entry for that connection; a well-formed table has at most one (see `addrs_unique`).
pub struct PlayerTable {
    pub entries: Vec<(u64, Player)>,
}

/// Whether no connection has two entries in a table, as in a table keyed by connection.
pub open spec fn addrs_unique(es: Seq<(u64, Player)>) -> bool {
    forall|i: int, j: int| 0 <= i < j < es.len() ==> (#[trigger] es[i]).0 != (#[trigger] es[j]).0
}

impl PlayerTable {
    /// A table keyed by connection: no connection has two entries.
    pub open spec fn wf(&self) -> bool {
        addrs_unique(self.entries@)
    }
}

/// The position of the first entry for connection `addr` at or after `i`.
pub open spec fn addr_from(es: Seq<(u64, Player)>, addr: u64, i: int) -> Option<int>
    decreases es.len() - i,
{
    if i < 0 || i >= es.len() {
        None
    } else if es[i].0 == addr {
        Some(i)
    } else {
        addr_from(es, addr, i + 1)
    }
}

/// The position of the first entry for connection `addr`.
pub open spec fn addr_index(es: Seq<(u64, Player)>, addr: u64) -> Option<int> {
    addr_from(es, addr, 0)
}

/// The player on connection `addr`, if any.
pub open spec fn player_at(es: Seq<(u64, Player)>, addr: u64) -> Option<Player> {
    match addr_index(es, addr) {
        Some(i) => Some(es[i].1),
        None => None,
    }
}

/// What a search for a connection finds: the first matching entry, or none at all.
pub proof fn lemma_addr_from(es: Seq<(u64, Player)>, addr: u64, i: int)
    requires
        0 <= i,
    ensures
        match addr_from(es, addr, i) {
            Some(k) => i <= k < es.len() && es[k].0 == addr && forall|j: int|
                i <= j < k ==> es[j].0 != addr,
            None => forall|j: int| i <= j < es.len() ==> es[j].0 != addr,
        },
    decreases es.len() - i,
{
    if i < es.len() && es[i].0 != addr {
        lemma_addr_from(es, addr, i + 1);
    }
}

impl PlayerTable {
    /// No players.
    pub fn new() -> (r: Self)
        ensures
            r.entries@ == Seq::<(u64, Player)>::empty(),
            r.wf(),
    {
        PlayerTable { entries: Vec::new() }
    }

    /// The position of the first entry for connection `addr`.
    pub fn index_of(&self, addr: u64) -> (r: Option<usize>)
        ensures
            opt_index(r) == addr_index(self.entries@, addr),
    {
        let mut i: usize = 0;
        while i < self.entries.len()
            invariant
                i <= self.entries@.len(),
                addr_index(self.entries@, addr) == addr_from(self.entries@, addr, i as int),
            decreases self.entries@.len() - i,
        {
            if self.entries[i].0 == addr {
                return Some(i);
            }
            i += 1;
        }
        None
    }

    /// The player on connection `addr`, if any.
    pub fn get(&self, addr: u64) -> (r: Option<&Player>)
        ensures
            match r {
                Some(p) => player_at(self.entries@, addr) == Some(*p),
                None => player_at(self.entries@, addr) is None,
            },
    {
        let found = self.index_of(addr);
        proof {
            lemma_addr_from(self.entries@, addr, 0);
        }
        match found {
            Some(i) => Some(&self.entries[i].1),
            None => None,
        }
    }
}

/// Whether some entry is for a player named `name`.
pub fn has_named_exec(es: &Vec<(u64, Player)>, name: &str) -> (b: bool)
    ensures
        b == has_named(es@, name@),
{
    let mut i: usize = 0;
    while i < es.len()
        invariant
            i <= es@.len(),
            forall|j: int| 0 <= j < i ==> es@[j].1.name@ != name@,
        decreases es@.len() - i,
    {
        if str_eq(es[i].1.name.as_str(), name) {
            return true;
        }
        i += 1;
    }
    false
}

/// An index found by an executable search, as an optional integer.
pub open spec fn opt_index(r: Option<usize>) -> Option<int> {
    match r {
        Some(i) => Some(i as int),
        None => None,
    }
}

}
