use vstd::prelude::*;
use std::collections::HashMap;
use vstd::string::*;

use crate::text::{lines, lines_str, parse_isize, parse_isize_exec, str_eq, views};
use crate::utils_parsing::{
    first_field, isize_to_usize, pop_first_int, pop_first_string, read_setting, setting_entry,
};

verus! {

broadcast use vstd::string::group_string_axioms;

// ---------------------------------------------------------------------
// Experience table
// ---------------------------------------------------------------------

/// Experience needed for each level; entry 0 is a placeholder.
pub struct XpTable {
    pub xp_table: Vec<usize>,
}

/// The experience value a `level = a, b` line gives: its second field.
pub open spec fn level_row_value(val: Seq<char>) -> Option<int> {
    parse_isize(first_field(first_field(val).1).0)
}

/// Whether a line of the experience table file can be read: a `level` line must hold two
/// integers, the second not negative.
pub open spec fn xp_line_ok(line: Seq<char>) -> bool {
    match setting_entry(line) {
        Some((k, v)) => k == "level"@ ==> {
            &&& parse_isize(first_field(v).0) is Some
            &&& level_row_value(v) matches Some(x) && x >= 0
        },
        None => true,
    }
}

/// The rows that the lines of an experience table file add, in order.
pub open spec fn xp_rows(ls: Seq<Seq<char>>) -> Seq<usize>
    decreases ls.len(),
{
    if ls.len() == 0 {
        seq![]
    } else {
        let prev = xp_rows(ls.drop_last());
        match setting_entry(ls.last()) {
            Some((k, v)) => if k == "level"@ {
                prev.push(level_row_value(v).unwrap() as usize)
            } else {
                prev
            },
            None => prev,
        }
    }
}

/// Whether a line of the experience table file can be read (see `xp_line_ok`).
pub fn xp_line_ok_exec(line: &str) -> (b: bool)
    ensures
        b == xp_line_ok(line@),
{
    match read_setting(line) {
        None => true,
        Some((key, val)) => {
            if !str_eq(key.as_str(), "level") {
                return true;
            }
            let (first, rest) = pop_first_string(val.as_str());
            if parse_isize_exec(first.as_str()).is_none() {
                return false;
            }
            let (second, _rest) = pop_first_string(rest.as_str());
            match parse_isize_exec(second.as_str()) {
                Some(x) => x >= 0,
                None => false,
            }
        },
    }
}

/// Whether every line of an experience table file can be read.
pub fn xp_text_ok_exec(content: &str) -> (b: bool)
    ensures
        b == forall|i: int| 0 <= i < lines(content@).len() ==> xp_line_ok(#[trigger] lines(content@)[i]),
{
    let ls = lines_str(content);
    let mut i: usize = 0;
    while i < ls.len()
        invariant
            views(ls@) == lines(content@),
            i <= ls@.len(),
            forall|k: int| 0 <= k < i ==> xp_line_ok(#[trigger] lines(content@)[k]),
        decreases ls@.len() - i,
    {
        assert(views(ls@)[i as int] == ls@[i as int]@);
        if !xp_line_ok_exec(ls[i].as_str()) {
            return false;
        }
        i += 1;
    }
    true
}

impl XpTable {
    /// An empty table.
    pub fn new() -> (r: Self)
        ensures
            r.xp_table@ == Seq::<usize>::empty(),
    {
        XpTable { xp_table: Vec::new() }
    }

    /// Fills the table from the text of an experience table file: a placeholder 0, then the
    /// second value of each `level` line in order.
    pub fn load(&mut self, content: &str)
        requires
            forall|i: int| 0 <= i < lines(content@).len() ==> xp_line_ok(#[trigger] lines(content@)[i]),
        ensures
            final(self).xp_table@ == seq![0usize] + xp_rows(lines(content@)),
    {
        self.xp_table.clear();
        self.xp_table.push(0);
        let ls = lines_str(content);
        let ghost lv = lines(content@);
        let mut i: usize = 0;
        assert(lv.take(0) =~= seq![]);
        while i < ls.len()
            invariant
                views(ls@) == lv,
                lv == lines(content@),
                forall|j: int| 0 <= j < lv.len() ==> xp_line_ok(#[trigger] lv[j]),
                i <= ls@.len(),
                self.xp_table@ == seq![0usize] + xp_rows(lv.take(i as int)),
            decreases ls@.len() - i,
        {
            let line = &ls[i];
            assert(line@ == lv[i as int]);
            assert(lv.take(i + 1).drop_last() =~= lv.take(i as int));
            assert(lv.take(i + 1).last() == lv[i as int]);
            assert(xp_line_ok(lv[i as int]));
            match read_setting(line.as_str()) {
                Some((key, val)) => {
                    if str_eq(key.as_str(), "level") {
                        let (_outs, remains) = pop_first_int(val.as_str());
                        let (outs, _remains) = pop_first_int(remains.as_str());
                        let v = match isize_to_usize(outs) {
                            Some(v) => v,
                            None => 0,
                        };
                        self.xp_table.push(v);
                    }
                },
                None => {},
            }
            i += 1;
            assert(self.xp_table@ =~= seq![0usize] + xp_rows(lv.take(i as int)));
        }
        assert(lv.take(ls@.len() as int) =~= lv);
    }

    /// The experience needed to reach `level`: 0 for level 1 or below and for an empty table,
    /// the last entry beyond the end of the table.
    pub fn get_level_xp(&self, level: usize) -> (r: usize)
        ensures
            r == (if level <= 1 || self.xp_table@.len() == 0 {
                0
            } else if level > self.xp_table@.len() {
                self.xp_table@.last()
            } else {
                self.xp_table@[level - 1]
            }),
    {
        let len = self.xp_table.len();
        if level <= 1 || len == 0 {
            0
        } else if level > len {
            self.xp_table[len - 1]
        } else {
            self.xp_table[level - 1]
        }
    }

    /// The number of entries, placeholder included.
    pub fn get_max_level(&self) -> (r: usize)
        ensures
            r == self.xp_table@.len(),
    {
        self.xp_table.len()
    }
}


// ---------------------------------------------------------------------
// Primary statistics
// ---------------------------------------------------------------------

/// A primary statistic: its identifier and display name.
pub struct PrimaryStat {
    pub id: String,
    pub name: String,
}

impl PrimaryStat {
    /// A statistic with empty identifier and name.
    pub fn new() -> (r: Self)
        ensures
            r.id@ == Seq::<char>::empty(),
            r.name@ == Seq::<char>::empty(),
    {
        PrimaryStat { id: String::new(), name: String::new() }
    }
}

/// The list of primary statistics.
pub struct PrimaryStats {
    pub list: Vec<PrimaryStat>,
}

/// The identifiers and names of a list of statistics.
pub open spec fn stat_views(list: Seq<PrimaryStat>) -> Seq<(Seq<char>, Seq<char>)> {
    list.map_values(|p: PrimaryStat| (p.id@, p.name@))
}

/// Whether a line of the statistics file is an `id` line.
pub open spec fn is_id_line(line: Seq<char>) -> bool {
    setting_entry(line) matches Some((k, _v)) && k == "id"@
}

/// Whether a line of the statistics file is a `name` line.
pub open spec fn is_name_line(line: Seq<char>) -> bool {
    setting_entry(line) matches Some((k, _v)) && k == "name"@
}

/// The statistics that the lines of a statistics file describe: an `id` line starts a
/// statistic, a `name` line names the latest one.
pub open spec fn stats_from(ls: Seq<Seq<char>>) -> Seq<(Seq<char>, Seq<char>)>
    decreases ls.len(),
{
    if ls.len() == 0 {
        seq![]
    } else {
        let prev = stats_from(ls.drop_last());
        let line = ls.last();
        if is_id_line(line) {
            prev.push((first_field(setting_entry(line).unwrap().1).0, seq![]))
        } else if is_name_line(line) {
            prev.drop_last().push(
                (prev.last().0, first_field(setting_entry(line).unwrap().1).0),
            )
        } else {
            prev
        }
    }
}

/// Once an `id` line has been read, the list of statistics is never empty.
pub proof fn lemma_stats_nonempty(ls: Seq<Seq<char>>, j: int)
    requires
        0 <= j < ls.len(),
        is_id_line(ls[j]),
    ensures
        stats_from(ls).len() > 0,
    decreases ls.len(),
{
    if j < ls.len() - 1 {
        lemma_stats_nonempty(ls.drop_last(), j);
    }
}

/// Whether a statistics file names only statistics it has started: every `name` line comes
/// after some `id` line.
pub fn stats_text_ok_exec(content: &str) -> (b: bool)
    ensures
        b == forall|i: int|
            0 <= i < lines(content@).len() && is_name_line(#[trigger] lines(content@)[i])
                ==> exists|j: int| 0 <= j < i && is_id_line(lines(content@)[j]),
{
    let ls = lines_str(content);
    let ghost lv = lines(content@);
    let mut seen = false;
    let mut i: usize = 0;
    while i < ls.len()
        invariant
            views(ls@) == lv,
            lv == lines(content@),
            i <= ls@.len(),
            seen == exists|j: int| 0 <= j < i && is_id_line(lv[j]),
            forall|k: int|
                0 <= k < i && is_name_line(#[trigger] lv[k]) ==> exists|j: int| 0 <= j < k && is_id_line(lv[j]),
        decreases ls@.len() - i,
    {
        assert(views(ls@)[i as int] == ls@[i as int]@);
        let (is_id, is_name) = match read_setting(ls[i].as_str()) {
            Some((key, _val)) => (str_eq(key.as_str(), "id"), str_eq(key.as_str(), "name")),
            None => (false, false),
        };
        assert(is_id == is_id_line(lv[i as int]));
        assert(is_name == is_name_line(lv[i as int]));
        if is_name && !seen {
            return false;
        }
        if is_id {
            seen = true;
        }
        i += 1;
    }
    true
}

impl PrimaryStats {
    /// An empty list.
    pub fn new() -> (r: Self)
        ensures
            r.list@ == Seq::<PrimaryStat>::empty(),
    {
        PrimaryStats { list: Vec::new() }
    }

    /// Fills the list from the text of a statistics file (see `stats_from`); every `name` line
    /// must come after some `id` line.
    pub fn load(&mut self, content: &str)
        requires
            forall|i: int|
                0 <= i < lines(content@).len() && is_name_line(#[trigger] lines(content@)[i])
                    ==> exists|j: int| 0 <= j < i && is_id_line(lines(content@)[j]),
        ensures
            stat_views(final(self).list@) == stats_from(lines(content@)),
    {
        self.list.clear();
        let ls = lines_str(content);
        let ghost lv = lines(content@);
        let mut i: usize = 0;
        assert(lv.take(0) =~= seq![]);
        assert(stat_views(self.list@) =~= seq![]);
        while i < ls.len()
            invariant
                views(ls@) == lv,
                lv == lines(content@),
                forall|k: int|
                    0 <= k < lv.len() && is_name_line(#[trigger] lv[k]) ==> exists|j: int|
                        0 <= j < k && is_id_line(lv[j]),
                i <= ls@.len(),
                stat_views(self.list@) == stats_from(lv.take(i as int)),
            decreases ls@.len() - i,
        {
            let line = &ls[i];
            let ghost t = lv.take(i + 1);
            assert(line@ == lv[i as int]);
            assert(t.drop_last() =~= lv.take(i as int));
            assert(t.last() == lv[i as int]);
            let ghost before = self.list@;
            match read_setting(line.as_str()) {
                Some((key, val)) => {
                    if str_eq(key.as_str(), "id") {
                        let (outs, _remains) = pop_first_string(val.as_str());
                        let ps = PrimaryStat { id: outs, name: String::new() };
                        self.list.push(ps);
                        assert(stat_views(self.list@) =~= stats_from(t));
                    } else if str_eq(key.as_str(), "name") {
                        proof {
                            assert(is_name_line(lv[i as int]));
                            let j = choose|j: int| 0 <= j < i && is_id_line(lv[j]);
                            assert(t[j] == lv[j]);
                            lemma_stats_nonempty(lv.take(i as int), j);
                            assert(lv.take(i as int)[j] == lv[j]);
                        }
                        let last = self.list.pop().unwrap();
                        let (outs, _remains) = pop_first_string(val.as_str());
                        let ps = PrimaryStat { id: last.id, name: outs };
                        self.list.push(ps);
                        assert(stat_views(self.list@) =~= stats_from(t));
                    } else {
                        assert(stat_views(self.list@) =~= stats_from(t));
                    }
                },
                None => {
                    assert(stat_views(self.list@) =~= stats_from(t));
                },
            }
            i += 1;
        }
        assert(lv.take(ls@.len() as int) =~= lv);
    }

    /// The position of the first statistic with identifier `id`, or the list's length when
    /// there is none.
    pub fn get_index_by_id(&self, id: &str) -> (r: usize)
        ensures
            r <= self.list@.len(),
            r < self.list@.len() ==> self.list@[r as int].id@ == id@,
            forall|j: int| 0 <= j < r ==> self.list@[j].id@ != id@,
    {
        let mut i: usize = 0;
        while i < self.list.len()
            invariant
                i <= self.list@.len(),
                forall|j: int| 0 <= j < i ==> self.list@[j].id@ != id@,
            decreases self.list@.len() - i,
        {
            if str_eq(self.list[i].id.as_str(), id) {
                return i;
            }
            i = i + 1;
        }
        i
    }
}


// ---------------------------------------------------------------------
// Classes and damage types
// ---------------------------------------------------------------------

/// A character class.
pub struct Classes {
    pub name: String,
    pub description: String,
    pub equipment: Vec<u32>,
    pub carried: Vec<u32>,
    pub primary: HashMap<String, u32>,
    pub powers: u32,
    pub actionbar: Vec<u32>,
    pub default_power_tab: u32,
}

impl Classes {
    /// A class with no name, no items and no powers.
    pub fn new() -> (r: Self)
        ensures
            r.name@ == Seq::<char>::empty(),
            r.description@ == Seq::<char>::empty(),
            r.equipment@ == Seq::<u32>::empty(),
            r.carried@ == Seq::<u32>::empty(),
            r.primary@ == Map::<String, u32>::empty(),
            r.powers == 0,
            r.actionbar@ == Seq::<u32>::empty(),
            r.default_power_tab == 0,
    {
        Classes {
            name: String::new(),
            description: String::new(),
            equipment: Vec::new(),
            carried: Vec::new(),
            primary: HashMap::new(),
            powers: 0,
            actionbar: Vec::new(),
            default_power_tab: 0,
        }
    }
}

/// A kind of damage.
pub struct DamageType {
    pub id: String,
    pub name: String,
    pub name_min: String,
    pub name_max: String,
    pub description: String,
    pub min: String,
    pub max: String,
}

impl DamageType {
    /// A damage type whose texts are all empty.
    pub fn new() -> (r: Self)
        ensures
            r.id@ == Seq::<char>::empty(),
            r.name@ == Seq::<char>::empty(),
            r.name_min@ == Seq::<char>::empty(),
            r.name_max@ == Seq::<char>::empty(),
            r.description@ == Seq::<char>::empty(),
            r.min@ == Seq::<char>::empty(),
            r.max@ == Seq::<char>::empty(),
    {
        DamageType {
            id: String::new(),
            name: String::new(),
            name_min: String::new(),
            name_max: String::new(),
            description: String::new(),
            min: String::new(),
            max: String::new(),
        }
    }
}

// ---------------------------------------------------------------------
// Combat settings
// ---------------------------------------------------------------------

/// How resource values are rounded.
#[derive(PartialEq, Eq, Structural, Clone, Copy, Debug)]
pub enum RoundMethod {
    NO,
    ROUND,
    FLOOR,
    CEIL,
}

/// A line of the combat settings file: a percentage range given as its two written
/// numbers, the rounding method, or nothing the combat settings use.
pub enum CombatSetting {
    Avoidance(String, String),
    Resist(String, String),
    MissDamage(String, String),
    CritDamage(String, String),
    Rounding(RoundMethod),
    Other,
}

/// The rounding method a `resource_round_method` value names; anything unknown rounds.
pub open spec fn round_method_of(val: Seq<char>) -> RoundMethod {
    if val == "floor"@ {
        RoundMethod::FLOOR
    } else if val == "ceil"@ {
        RoundMethod::CEIL
    } else {
        RoundMethod::ROUND
    }
}

/// The two leading fields of a value, as `min, max` ranges are written.
pub open spec fn range_fields(val: Seq<char>) -> (Seq<char>, Seq<char>) {
    (first_field(val).0, first_field(first_field(val).1).0)
}

/// Whether a combat setting holds the two given fields.
pub open spec fn holds_range(c: CombatSetting, r: (Seq<char>, Seq<char>)) -> bool {
    match c {
        CombatSetting::Avoidance(a, b) => (a@, b@) == r,
        CombatSetting::Resist(a, b) => (a@, b@) == r,
        CombatSetting::MissDamage(a, b) => (a@, b@) == r,
        CombatSetting::CritDamage(a, b) => (a@, b@) == r,
        _ => false,
    }
}

/// What a line of the combat settings file sets.
pub open spec fn combat_setting_spec(line: Seq<char>, c: CombatSetting) -> bool {
    match setting_entry(line) {
        Some((k, v)) => if k == "avoidance_percent"@ {
            c is Avoidance && holds_range(c, range_fields(v))
        } else if k == "resist_percent"@ {
            c is Resist && holds_range(c, range_fields(v))
        } else if k == "miss_damage_percent"@ {
            c is MissDamage && holds_range(c, range_fields(v))
        } else if k == "crit_damage_percent"@ {
            c is CritDamage && holds_range(c, range_fields(v))
        } else if k == "resource_round_method"@ {
            c == CombatSetting::Rounding(round_method_of(v))
        } else {
            c is Other
        },
        None => c is Other,
    }
}

/// Reads the rounding method a `resource_round_method` value names.
pub fn round_method(val: &str) -> (r: RoundMethod)
    ensures
        r == round_method_of(val@),
{
    proof {
        reveal_strlit("round");
        reveal_strlit("floor");
        reveal_strlit("ceil");
        assert("round"@[0] != "floor"@[0]);
        assert("round"@[0] != "ceil"@[0]);
    }
    if str_eq(val, "round") {
        RoundMethod::ROUND
    } else if str_eq(val, "floor") {
        RoundMethod::FLOOR
    } else if str_eq(val, "ceil") {
        RoundMethod::CEIL
    } else {
        RoundMethod::ROUND
    }
}

/// Reads one line of the combat settings file (see `combat_setting_spec`).
pub fn combat_setting(line: &str) -> (r: CombatSetting)
    ensures
        combat_setting_spec(line@, r),
{
    match read_setting(line) {
        Some((key, val)) => {
            let k = key.as_str();
            let (a, rest) = pop_first_string(val.as_str());
            let (b, _rest) = pop_first_string(rest.as_str());
            if str_eq(k, "avoidance_percent") {
                CombatSetting::Avoidance(a, b)
            } else if str_eq(k, "resist_percent") {
                CombatSetting::Resist(a, b)
            } else if str_eq(k, "miss_damage_percent") {
                CombatSetting::MissDamage(a, b)
            } else if str_eq(k, "crit_damage_percent") {
                CombatSetting::CritDamage(a, b)
            } else if str_eq(k, "resource_round_method") {
                CombatSetting::Rounding(round_method(val.as_str()))
            } else {
                CombatSetting::Other
            }
        },
        None => CombatSetting::Other,
    }
}

}
