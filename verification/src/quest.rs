use std::collections::HashMap;
use vstd::prelude::*;
use vstd::string::*;

use crate::text::{
    contains, contains_exec, lines, lines_str, owned, parse_u32, parse_u32_exec, split, split_str,
    str_eq, views,
};

verus! {

broadcast use {vstd::string::group_string_axioms, vstd::std_specs::hash::group_hash_axioms};

/// A quest of the newcomers' guide.
pub struct Quest {
    pub id: u32,
    pub name: String,
    pub job: String,
    pub award: String,
    pub after: String,
    pub xp: u32,
    pub sp: u32,
    pub subquest: HashMap<u32, bool>,
    pub parent: u32,
    pub next: u32,
    pub node: u32,
    pub completed: bool,
}

/// The values a quest holds.
pub struct QuestView {
    pub id: u32,
    pub name: Seq<char>,
    pub job: Seq<char>,
    pub award: Seq<char>,
    pub after: Seq<char>,
    pub xp: u32,
    pub sp: u32,
    pub subquest: Map<u32, bool>,
    pub parent: u32,
    pub next: u32,
    pub node: u32,
    pub completed: bool,
}

impl View for Quest {
    type V = QuestView;

    open spec fn view(&self) -> QuestView {
        QuestView {
            id: self.id,
            name: self.name@,
            job: self.job@,
            award: self.award@,
            after: self.after@,
            xp: self.xp,
            sp: self.sp,
            subquest: self.subquest@,
            parent: self.parent,
            next: self.next,
            node: self.node,
            completed: self.completed,
        }
    }
}

/// Whether a table of quests holds exactly the given quest values.
pub open spec fn holds_quests(m: Map<u32, Quest>, qs: Map<u32, QuestView>) -> bool {
    &&& m.dom() == qs.dom()
    &&& forall|k: u32| #[trigger] m.contains_key(k) ==> m[k]@ == qs[k]
}

/// The quest that `Quest::new` gives.
pub open spec fn blank_quest() -> QuestView {
    QuestView {
        id: 0,
        name: seq![],
        job: seq![],
        award: seq![],
        after: seq![],
        xp: 0,
        sp: 0,
        subquest: Map::empty(),
        parent: 0,
        next: 0,
        node: 0,
        completed: false,
    }
}

impl Quest {
    /// A quest with no name, no rewards and no sub-quests.
    pub fn new() -> (r: Self)
        ensures
            r@ == blank_quest(),
    {
        Quest {
            id: 0,
            name: String::new(),
            job: String::new(),
            award: String::new(),
            after: String::new(),
            xp: 0,
            sp: 0,
            subquest: HashMap::new(),
            parent: 0,
            next: 0,
            node: 0,
            completed: false,
        }
    }
}

/// The key of a `key=item` line: the text before the first `=`.
pub open spec fn line_key(line: Seq<char>) -> Seq<char> {
    split(line, seq!['='])[0]
}

/// The item of a `key=item` line: the text between the first and second `=`, or empty.
pub open spec fn line_item(line: Seq<char>) -> Seq<char> {
    let g = split(line, seq!['=']);
    if g.len() > 1 {
        g[1]
    } else {
        seq![]
    }
}

/// The keys of a quest description whose items are numbers.
pub open spec fn quest_number_key(key: Seq<char>) -> bool {
    key == "id"@ || key == "xp"@ || key == "sp"@ || key == "node"@ || key == "parent"@ || key
        == "next"@
}

/// Whether a line of a quest description can be read: numeric items parse as `u32`, and so
/// does each `|`-separated sub-quest.
pub open spec fn quest_line_ok(line: Seq<char>) -> bool {
    &&& quest_number_key(line_key(line)) ==> parse_u32(line_item(line)) is Some
    &&& line_key(line) == "subquest"@ ==> forall|j: int|
        0 <= j < split(line_item(line), seq!['|']).len() ==> parse_u32(
            #[trigger] split(line_item(line), seq!['|'])[j],
        ) is Some
}

/// The sub-quest table after inserting the given identifiers, each not yet done.
pub open spec fn add_subquests(m: Map<u32, bool>, subs: Seq<Seq<char>>) -> Map<u32, bool>
    decreases subs.len(),
{
    if subs.len() == 0 {
        m
    } else {
        add_subquests(m, subs.drop_last()).insert(parse_u32(subs.last()).unwrap() as u32, false)
    }
}

/// A quest after one line of its description.
pub open spec fn apply_quest_line(q: QuestView, line: Seq<char>) -> QuestView {
    let key = line_key(line);
    let item = line_item(line);
    let num = parse_u32(item).unwrap() as u32;
    if key == "id"@ {
        QuestView { id: num, ..q }
    } else if key == "name"@ {
        QuestView { name: item, ..q }
    } else if key == "job"@ {
        QuestView { job: item, ..q }
    } else if key == "award"@ {
        QuestView { award: item, ..q }
    } else if key == "after"@ {
        QuestView { after: item, ..q }
    } else if key == "xp"@ {
        QuestView { xp: num, ..q }
    } else if key == "sp"@ {
        QuestView { sp: num, ..q }
    } else if key == "node"@ {
        QuestView { node: num, ..q }
    } else if key == "subquest"@ {
        QuestView { subquest: add_subquests(q.subquest, split(item, seq!['|'])), ..q }
    } else if key == "parent"@ {
        QuestView { parent: num, ..q }
    } else if key == "next"@ {
        QuestView { next: num, ..q }
    } else {
        q
    }
}

/// A quest after the given lines of its description.
pub open spec fn apply_quest_lines(q: QuestView, ls: Seq<Seq<char>>) -> QuestView
    decreases ls.len(),
{
    if ls.len() == 0 {
        q
    } else {
        apply_quest_line(apply_quest_lines(q, ls.drop_last()), ls.last())
    }
}

/// The quest a block of the quest file describes.
pub open spec fn quest_of_block(block: Seq<char>) -> QuestView {
    apply_quest_lines(blank_quest(), lines(block))
}

/// The quests that the given blocks describe, keyed by identifier; a block without `=` is
/// ignored, and a later quest replaces an earlier one with the same identifier.
pub open spec fn quests_of_blocks(blocks: Seq<Seq<char>>) -> Map<u32, QuestView>
    decreases blocks.len(),
{
    if blocks.len() == 0 {
        Map::empty()
    } else {
        let m = quests_of_blocks(blocks.drop_last());
        let b = blocks.last();
        if contains(b, seq!['=']) {
            m.insert(quest_of_block(b).id, quest_of_block(b))
        } else {
            m
        }
    }
}

/// The blocks of a quest file, separated by `[quest]`.
pub open spec fn quest_blocks(buf: Seq<char>) -> Seq<Seq<char>> {
    split(buf, "[quest]"@)
}

/// Whether every line of every block of a quest file can be read.
pub open spec fn quest_text_ok(buf: Seq<char>) -> bool {
    forall|b: int, i: int|
        0 <= b < quest_blocks(buf).len() && contains(quest_blocks(buf)[b], seq!['=']) && 0 <= i < lines(
            quest_blocks(buf)[b],
        ).len()
            ==> quest_line_ok(#[trigger] lines(#[trigger] quest_blocks(buf)[b])[i])
}

/// The key and item of a `key=item` line (see `line_key`, `line_item`).
pub fn key_and_item(line: &str) -> (r: (String, String))
    ensures
        r.0@ == line_key(line@),
        r.1@ == line_item(line@),
{
    proof {
        reveal_strlit("=");
        assert("="@ =~= seq!['=']);
        crate::text::lemma_split_nonempty(line@, seq!['=']);
    }
    let group = split_str(line, "=");
    assert(views(group@)[0] == group@[0]@);
    let key = owned(group[0].as_str());
    let item = if group.len() > 1 {
        assert(views(group@)[1] == group@[1]@);
        owned(group[1].as_str())
    } else {
        String::new()
    };
    (key, item)
}

/// Whether a line of a quest description can be read (see `quest_line_ok`).
pub fn quest_line_ok_exec(line: &str) -> (b: bool)
    ensures
        b == quest_line_ok(line@),
{
    let (key, item) = key_and_item(line);
    let k = key.as_str();
    let numeric = str_eq(k, "id") || str_eq(k, "xp") || str_eq(k, "sp") || str_eq(k, "node") || str_eq(
        k,
        "parent",
    ) || str_eq(k, "next");
    if numeric && parse_u32_exec(item.as_str()).is_none() {
        return false;
    }
    if str_eq(k, "subquest") {
        proof {
            reveal_strlit("|");
            assert("|"@ =~= seq!['|']);
        }
        let subs = split_str(item.as_str(), "|");
        let mut j: usize = 0;
        while j < subs.len()
            invariant
                j <= subs@.len(),
                item@ == line_item(line@),
                line_key(line@) == "subquest"@,
                views(subs@) == split(item@, seq!['|']),
                forall|m: int| 0 <= m < j ==> parse_u32(#[trigger] split(item@, seq!['|'])[m]) is Some,
            decreases subs@.len() - j,
        {
            assert(views(subs@)[j as int] == subs@[j as int]@);
            if parse_u32_exec(subs[j].as_str()).is_none() {
                proof {
                    assert(!(parse_u32(split(line_item(line@), seq!['|'])[j as int]) is Some));
                }
                return false;
            }
            j += 1;
        }
    }
    true
}

/// Whether every line of every block of a quest file can be read (see `quest_text_ok`).
pub fn quest_text_ok_exec(buf: &str) -> (b: bool)
    ensures
        b == quest_text_ok(buf@),
{
    proof {
        reveal_strlit("[quest]");
        reveal_strlit("=");
        assert("="@ =~= seq!['=']);
    }
    let blocks = split_str(buf, "[quest]");
    let ghost bv = views(blocks@);
    let mut b: usize = 0;
    while b < blocks.len()
        invariant
            bv == views(blocks@),
            bv == quest_blocks(buf@),
            "="@ == seq!['='],
            b <= blocks@.len(),
            forall|c: int, i: int|
                0 <= c < b && contains(bv[c], seq!['=']) && 0 <= i < lines(bv[c]).len()
                    ==> quest_line_ok(#[trigger] lines(#[trigger] bv[c])[i]),
        decreases blocks@.len() - b,
    {
        let block = blocks[b].as_str();
        assert(block@ == bv[b as int]);
        if contains_exec(block, "=") {
            let ls = lines_str(block);
            let mut i: usize = 0;
            while i < ls.len()
                invariant
                    b < bv.len(),
                    bv == quest_blocks(buf@),
                    contains(bv[b as int], seq!['=']),
                    views(ls@) == lines(bv[b as int]),
                    i <= ls@.len(),
                    forall|k: int| 0 <= k < i ==> quest_line_ok(#[trigger] lines(bv[b as int])[k]),
                decreases ls@.len() - i,
            {
                assert(views(ls@)[i as int] == ls@[i as int]@);
                if !quest_line_ok_exec(ls[i].as_str()) {
                    proof {
                        assert(!quest_line_ok(lines(bv[b as int])[i as int]));
                    }
                    return false;
                }
                i += 1;
            }
            assert(forall|k: int| 0 <= k < lines(bv[b as int]).len() ==> quest_line_ok(#[trigger] lines(bv[b as int])[k]));
        }
        b += 1;
    }
    true
}

/// Reads the number an item holds; the item must hold one.
fn item_number(item: &str) -> (r: u32)
    requires
        parse_u32(item@) is Some,
    ensures
        parse_u32(item@) == Some(r as int),
{
    match parse_u32_exec(item) {
        Some(v) => v,
        None => 0,
    }
}

/// Applies one line of a quest description to `quest`.
fn read_quest_line(quest: &mut Quest, line: &str)
    requires
        quest_line_ok(line@),
    ensures
        final(quest)@ == apply_quest_line(old(quest)@, line@),
{
    proof {
        reveal_strlit("=");
        reveal_strlit("|");
        assert("="@ =~= seq!['=']);
        assert("|"@ =~= seq!['|']);
    }
    let group = split_str(line, "=");
    assert(views(group@)[0] == group@[0]@);
    let key = group[0].as_str();
    let item_s = if group.len() > 1 {
        assert(views(group@)[1] == group@[1]@);
        owned(group[1].as_str())
    } else {
        String::new()
    };
    let item = item_s.as_str();
    assert(key@ == line_key(line@));
    assert(item@ == line_item(line@));
    if str_eq(key, "id") {
        quest.id = item_number(item);
    } else if str_eq(key, "name") {
        quest.name = owned(item);
    } else if str_eq(key, "job") {
        quest.job = owned(item);
    } else if str_eq(key, "award") {
        quest.award = owned(item);
    } else if str_eq(key, "after") {
        quest.after = owned(item);
    } else if str_eq(key, "xp") {
        quest.xp = item_number(item);
    } else if str_eq(key, "sp") {
        quest.sp = item_number(item);
    } else if str_eq(key, "node") {
        quest.node = item_number(item);
    } else if str_eq(key, "subquest") {
        let subs = split_str(item, "|");
        let ghost sv = views(subs@);
        let ghost m0 = quest.subquest@;
        let ghost q0 = quest@;
        let mut j: usize = 0;
        assert(sv.take(0) =~= seq![]);
        while j < subs.len()
            invariant
                sv == views(subs@),
                sv == split(item@, seq!['|']),
                forall|k: int| 0 <= k < sv.len() ==> parse_u32(#[trigger] sv[k]) is Some,
                j <= subs@.len(),
                quest@ == (QuestView { subquest: add_subquests(m0, sv.take(j as int)), ..q0 }),
            decreases subs@.len() - j,
        {
            assert(sv[j as int] == subs@[j as int]@);
            let n = item_number(subs[j].as_str());
            quest.subquest.insert(n, false);
            j += 1;
            assert(sv.take(j as int).drop_last() =~= sv.take(j - 1));
        }
        assert(sv.take(subs@.len() as int) =~= sv);
    } else if str_eq(key, "parent") {
        quest.parent = item_number(item);
    } else if str_eq(key, "next") {
        quest.next = item_number(item);
    }
}

/// Reads the quests of a quest file, keyed by identifier (see `quests_of_blocks`); every
/// numeric item must be a valid `u32`.
pub fn init_quest(buf: &str) -> (r: HashMap<u32, Quest>)
    requires
        quest_text_ok(buf@),
    ensures
        holds_quests(r@, quests_of_blocks(quest_blocks(buf@))),
{
    let mut quests: HashMap<u32, Quest> = HashMap::new();
    proof {
        reveal_strlit("[quest]");
    }
    let blocks = split_str(buf, "[quest]");
    let ghost bv = views(blocks@);
    let mut b: usize = 0;
    assert(bv.take(0) =~= seq![]);
    assert(quests_of_blocks(bv.take(0)) == Map::<u32, QuestView>::empty());
    assert(quests@.dom() =~= Set::<u32>::empty());
    while b < blocks.len()
        invariant
            bv == views(blocks@),
            bv == quest_blocks(buf@),
            quest_text_ok(buf@),
            b <= blocks@.len(),
            holds_quests(quests@, quests_of_blocks(bv.take(b as int))),
        decreases blocks@.len() - b,
    {
        let block = blocks[b].as_str();
        assert(block@ == bv[b as int]);
        assert(bv.take(b + 1).drop_last() =~= bv.take(b as int));
        proof {
            reveal_strlit("=");
            assert("="@ =~= seq!['=']);
        }
        if contains_exec(block, "=") {
            let mut quest = Quest::new();
            let ls = lines_str(block);
            let ghost lv = lines(block@);
            let mut i: usize = 0;
            assert(lv.take(0) =~= seq![]);
            while i < ls.len()
                invariant
                    views(ls@) == lv,
                    lv == lines(bv[b as int]),
                    forall|k: int| 0 <= k < lv.len() ==> quest_line_ok(#[trigger] lv[k]),
                    i <= ls@.len(),
                    quest@ == apply_quest_lines(blank_quest(), lv.take(i as int)),
                decreases ls@.len() - i,
            {
                assert(ls@[i as int]@ == lv[i as int]);
                read_quest_line(&mut quest, ls[i].as_str());
                i += 1;
                assert(lv.take(i as int).drop_last() =~= lv.take(i - 1));
            }
            assert(lv.take(ls@.len() as int) =~= lv);
            let ghost q = quest@;
            let ghost before = quests@;
            quests.insert(quest.id, quest);
            proof {
                let qs = quests_of_blocks(bv.take(b + 1));
                assert(qs == quests_of_blocks(bv.take(b as int)).insert(q.id, q));
                assert(quests@.dom() =~= qs.dom());
            }
        }
        b += 1;
    }
    assert(bv.take(blocks@.len() as int) =~= bv);
    quests
}

}
