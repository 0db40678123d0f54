use std::collections::HashMap;
use vstd::prelude::*;
use vstd::string::*;

use crate::quest::{line_item, line_key};
use crate::text::{
    contains, contains_exec, int_text, lines, lines_str, owned, parse_u32, parse_u32_exec, split,
    split_str, str_eq, u64_text, views,
};
use crate::text_map::TextMap;

verus! {

broadcast use {vstd::string::group_string_axioms, vstd::std_specs::hash::group_hash_axioms};

/// A place on the map.
pub struct Node {
    pub id: u32,
    pub name: String,
    pub look: String,
    pub lookat: TextMap,
    pub looks: HashMap<u32, String>,
    pub climbat: TextMap,
    pub knockat: TextMap,
    pub openat: TextMap,
    pub destpos: u32,
    pub localmaps: String,
    pub localmaps_gmcp: String,
    pub list: String,
    pub east_id: u32,
    pub west_id: u32,
    pub south_id: u32,
    pub north_id: u32,
    pub northeast_id: u32,
    pub northwest_id: u32,
    pub southeast_id: u32,
    pub southwest_id: u32,
    pub easts: HashMap<u32, u32>,
    pub wests: HashMap<u32, u32>,
    pub souths: HashMap<u32, u32>,
    pub norths: HashMap<u32, u32>,
    pub northeasts: HashMap<u32, u32>,
    pub northwests: HashMap<u32, u32>,
    pub southeasts: HashMap<u32, u32>,
    pub southwests: HashMap<u32, u32>,
}

/// The values a place holds.
pub struct NodeView {
    pub id: u32,
    pub name: Seq<char>,
    pub look: Seq<char>,
    pub lookat: Map<Seq<char>, Seq<char>>,
    pub looks: Map<u32, Seq<char>>,
    pub climbat: Map<Seq<char>, Seq<char>>,
    pub knockat: Map<Seq<char>, Seq<char>>,
    pub openat: Map<Seq<char>, Seq<char>>,
    pub destpos: u32,
    pub localmaps: Seq<char>,
    pub localmaps_gmcp: Seq<char>,
    pub list: Seq<char>,
    pub east_id: u32,
    pub west_id: u32,
    pub south_id: u32,
    pub north_id: u32,
    pub northeast_id: u32,
    pub northwest_id: u32,
    pub southeast_id: u32,
    pub southwest_id: u32,
    pub easts: Map<u32, u32>,
    pub wests: Map<u32, u32>,
    pub souths: Map<u32, u32>,
    pub norths: Map<u32, u32>,
    pub northeasts: Map<u32, u32>,
    pub northwests: Map<u32, u32>,
    pub southeasts: Map<u32, u32>,
    pub southwests: Map<u32, u32>,
}

/// The text values of a table keyed by number.
pub open spec fn text_values(m: Map<u32, String>) -> Map<u32, Seq<char>> {
    m.map_values(|s: String| s@)
}

impl View for Node {
    type V = NodeView;

    open spec fn view(&self) -> NodeView {
        NodeView {
            id: self.id,
            name: self.name@,
            look: self.look@,
            lookat: self.lookat@,
            looks: text_values(self.looks@),
            climbat: self.climbat@,
            knockat: self.knockat@,
            openat: self.openat@,
            destpos: self.destpos,
            localmaps: self.localmaps@,
            localmaps_gmcp: self.localmaps_gmcp@,
            list: self.list@,
            east_id: self.east_id,
            west_id: self.west_id,
            south_id: self.south_id,
            north_id: self.north_id,
            northeast_id: self.northeast_id,
            northwest_id: self.northwest_id,
            southeast_id: self.southeast_id,
            southwest_id: self.southwest_id,
            easts: self.easts@,
            wests: self.wests@,
            souths: self.souths@,
            norths: self.norths@,
            northeasts: self.northeasts@,
            northwests: self.northwests@,
            southeasts: self.southeasts@,
            southwests: self.southwests@,
        }
    }
}

/// The place that `Node::new` gives: everything empty or zero.
pub open spec fn blank_node() -> NodeView {
    NodeView {
        id: 0,
        name: seq![],
        look: seq![],
        lookat: Map::empty(),
        looks: Map::empty(),
        climbat: Map::empty(),
        knockat: Map::empty(),
        openat: Map::empty(),
        destpos: 0,
        localmaps: seq![],
        localmaps_gmcp: seq![],
        list: seq![],
        east_id: 0,
        west_id: 0,
        south_id: 0,
        north_id: 0,
        northeast_id: 0,
        northwest_id: 0,
        southeast_id: 0,
        southwest_id: 0,
        easts: Map::empty(),
        wests: Map::empty(),
        souths: Map::empty(),
        norths: Map::empty(),
        northeasts: Map::empty(),
        northwests: Map::empty(),
        southeasts: Map::empty(),
        southwests: Map::empty(),
    }
}

impl Node {
    /// A place with no name, no views and no exits.
    pub fn new() -> (r: Self)
        ensures
            r@ == blank_node(),
    {
        let r = Node {
            id: 0,
            name: String::new(),
            look: String::new(),
            lookat: TextMap::new(),
            looks: HashMap::new(),
            climbat: TextMap::new(),
            knockat: TextMap::new(),
            openat: TextMap::new(),
            destpos: 0,
            localmaps: String::new(),
            localmaps_gmcp: String::new(),
            list: String::new(),
            east_id: 0,
            west_id: 0,
            south_id: 0,
            north_id: 0,
            northeast_id: 0,
            northwest_id: 0,
            southeast_id: 0,
            southwest_id: 0,
            easts: HashMap::new(),
            wests: HashMap::new(),
            souths: HashMap::new(),
            norths: HashMap::new(),
            northeasts: HashMap::new(),
            northwests: HashMap::new(),
            southeasts: HashMap::new(),
            southwests: HashMap::new(),
        };
        assert(text_values(r.looks@) =~= Map::<u32, Seq<char>>::empty());
        r
    }
}

/// The position of a direction name among east, west, south, north, southeast, southwest,
/// northeast, northwest; -1 for any other text.
pub open spec fn dir_index(key: Seq<char>) -> int {
    if key == "east"@ {
        0
    } else if key == "west"@ {
        1
    } else if key == "south"@ {
        2
    } else if key == "north"@ {
        3
    } else if key == "southeast"@ {
        4
    } else if key == "southwest"@ {
        5
    } else if key == "northeast"@ {
        6
    } else if key == "northwest"@ {
        7
    } else {
        -1
    }
}

/// A place with the exit in direction `d` set to `v`.
pub open spec fn with_exit(n: NodeView, d: int, v: u32) -> NodeView {
    if d == 0 {
        NodeView { east_id: v, ..n }
    } else if d == 1 {
        NodeView { west_id: v, ..n }
    } else if d == 2 {
        NodeView { south_id: v, ..n }
    } else if d == 3 {
        NodeView { north_id: v, ..n }
    } else if d == 4 {
        NodeView { southeast_id: v, ..n }
    } else if d == 5 {
        NodeView { southwest_id: v, ..n }
    } else if d == 6 {
        NodeView { northeast_id: v, ..n }
    } else if d == 7 {
        NodeView { northwest_id: v, ..n }
    } else {
        n
    }
}

/// A place whose exit in direction `d` leads to `v` at stage `stage`.
pub open spec fn with_staged_exit(n: NodeView, d: int, stage: u32, v: u32) -> NodeView {
    if d == 0 {
        NodeView { easts: n.easts.insert(stage, v), ..n }
    } else if d == 1 {
        NodeView { wests: n.wests.insert(stage, v), ..n }
    } else if d == 2 {
        NodeView { souths: n.souths.insert(stage, v), ..n }
    } else if d == 3 {
        NodeView { norths: n.norths.insert(stage, v), ..n }
    } else if d == 4 {
        NodeView { southeasts: n.southeasts.insert(stage, v), ..n }
    } else if d == 5 {
        NodeView { southwests: n.southwests.insert(stage, v), ..n }
    } else if d == 6 {
        NodeView { northeasts: n.northeasts.insert(stage, v), ..n }
    } else if d == 7 {
        NodeView { northwests: n.northwests.insert(stage, v), ..n }
    } else {
        n
    }
}

/// The part of an `action@target` key after the first `@` (empty when there is none).
pub open spec fn at_target(key: Seq<char>) -> Seq<char> {
    let g = split(key, seq!['@']);
    if g.len() > 1 {
        g[1]
    } else {
        seq![]
    }
}

/// The number an item holds (meaningful when it holds one).
pub open spec fn item_num(item: Seq<char>) -> u32 {
    parse_u32(item).unwrap() as u32
}

/// A place after a `key=item` line, leaving aside staged (`$n`) keys.
pub open spec fn apply_plain_key(n: NodeView, key: Seq<char>, item: Seq<char>) -> NodeView {
    if key == "id"@ {
        NodeView { id: item_num(item), ..n }
    } else if key == "name"@ {
        NodeView { name: item, ..n }
    } else if key == "look"@ {
        NodeView { look: item, ..n }
    } else if key == "look@river"@ || key == "look@path"@ {
        NodeView { lookat: n.lookat.insert(at_target(key), item), ..n }
    } else if key == "climb@up"@ || key == "climb@updone"@ || key == "climb@down"@ {
        NodeView { climbat: n.climbat.insert(at_target(key), item), ..n }
    } else if key == "knock@gate"@ || key == "knock@gatedone"@ {
        NodeView { knockat: n.knockat.insert(at_target(key), item), ..n }
    } else if key == "destpos"@ {
        NodeView { destpos: item_num(item), ..n }
    } else if key == "localmaps"@ {
        NodeView { localmaps: item, ..n }
    } else if dir_index(key) >= 0 {
        with_exit(n, dir_index(key), item_num(item))
    } else if key == "east$1"@ {
        with_staged_exit(n, 0, 1, item_num(item))
    } else {
        n
    }
}

/// The marker of stage `stage` in a key: `$` followed by the stage number.
pub open spec fn stage_mark(stage: u32) -> Seq<char> {
    seq!['$'] + int_text(stage as int)
}

/// A place after the staged part of a `key=item` line for one stage: a key holding `$n`
/// gives the view (`look`) or exit (a direction) of stage `n`.
pub open spec fn apply_stage(n: NodeView, key: Seq<char>, item: Seq<char>, stage: u32) -> NodeView {
    if contains(key, stage_mark(stage)) {
        let cmd = split(key, seq!['$'])[0];
        if cmd == "look"@ {
            NodeView { looks: n.looks.insert(stage, item), ..n }
        } else if dir_index(cmd) >= 0 {
            with_staged_exit(n, dir_index(cmd), stage, item_num(item))
        } else {
            n
        }
    } else {
        n
    }
}

/// A place after one line of its description: the plain key, then stages 1 to 4.
pub open spec fn apply_node_line(n: NodeView, line: Seq<char>) -> NodeView {
    let key = line_key(line);
    let item = line_item(line);
    apply_stage(
        apply_stage(
            apply_stage(apply_stage(apply_plain_key(n, key, item), key, item, 1), key, item, 2),
            key,
            item,
            3,
        ),
        key,
        item,
        4,
    )
}

/// Whether a line of a place's description can be read: the items of numeric keys parse as
/// `u32`.
pub open spec fn node_line_ok(line: Seq<char>) -> bool {
    let key = line_key(line);
    let item = line_item(line);
    &&& (key == "id"@ || key == "destpos"@ || dir_index(key) >= 0 || key == "east$1"@) ==> parse_u32(
        item,
    ) is Some
    &&& forall|stage: u32|
        1 <= stage <= 4 && contains(key, #[trigger] stage_mark(stage)) && dir_index(
            split(key, seq!['$'])[0],
        ) >= 0 ==> parse_u32(item) is Some
}

/// A place after the given lines of its description.
pub open spec fn apply_node_lines(n: NodeView, ls: Seq<Seq<char>>) -> NodeView
    decreases ls.len(),
{
    if ls.len() == 0 {
        n
    } else {
        apply_node_line(apply_node_lines(n, ls.drop_last()), ls.last())
    }
}

/// The place a block of the map file describes.
pub open spec fn node_of_block(block: Seq<char>) -> NodeView {
    apply_node_lines(blank_node(), lines(block))
}

/// The places that the given blocks describe, keyed by identifier; a block without `=` is
/// ignored, and a later place replaces an earlier one with the same identifier.
pub open spec fn nodes_of_blocks(blocks: Seq<Seq<char>>) -> Map<u32, NodeView>
    decreases blocks.len(),
{
    if blocks.len() == 0 {
        Map::empty()
    } else {
        let m = nodes_of_blocks(blocks.drop_last());
        let b = blocks.last();
        if contains(b, seq!['=']) {
            m.insert(node_of_block(b).id, node_of_block(b))
        } else {
            m
        }
    }
}

/// The blocks of a map file, separated by `[node]`.
pub open spec fn node_blocks(buf: Seq<char>) -> Seq<Seq<char>> {
    split(buf, "[node]"@)
}

/// Whether every line of every block of a map file can be read.
pub open spec fn map_text_ok(buf: Seq<char>) -> bool {
    forall|b: int, i: int|
        0 <= b < node_blocks(buf).len() && contains(node_blocks(buf)[b], seq!['=']) && 0 <= i < lines(
            node_blocks(buf)[b],
        ).len()
            ==> node_line_ok(#[trigger] lines(#[trigger] node_blocks(buf)[b])[i])
}

/// Whether a table of places holds exactly the given place values.
pub open spec fn holds_nodes(m: Map<u32, Node>, ns: Map<u32, NodeView>) -> bool {
    &&& m.dom() == ns.dom()
    &&& forall|k: u32| #[trigger] m.contains_key(k) ==> m[k]@ == ns[k]
}


/// The position of a direction name (see `dir_index`).
pub fn dir_index_exec(key: &str) -> (r: i32)
    ensures
        r == dir_index(key@),
{
    if str_eq(key, "east") {
        0
    } else if str_eq(key, "west") {
        1
    } else if str_eq(key, "south") {
        2
    } else if str_eq(key, "north") {
        3
    } else if str_eq(key, "southeast") {
        4
    } else if str_eq(key, "southwest") {
        5
    } else if str_eq(key, "northeast") {
        6
    } else if str_eq(key, "northwest") {
        7
    } else {
        -1
    }
}

/// Sets the exit in direction `d`.
fn set_exit(node: &mut Node, d: i32, v: u32)
    ensures
        final(node)@ == with_exit(old(node)@, d as int, v),
{
    if d == 0 {
        node.east_id = v;
    } else if d == 1 {
        node.west_id = v;
    } else if d == 2 {
        node.south_id = v;
    } else if d == 3 {
        node.north_id = v;
    } else if d == 4 {
        node.southeast_id = v;
    } else if d == 5 {
        node.southwest_id = v;
    } else if d == 6 {
        node.northeast_id = v;
    } else if d == 7 {
        node.northwest_id = v;
    }
}

/// Sets the exit in direction `d` at stage `stage`.
fn set_staged_exit(node: &mut Node, d: i32, stage: u32, v: u32)
    ensures
        final(node)@ == with_staged_exit(old(node)@, d as int, stage, v),
{
    if d == 0 {
        node.easts.insert(stage, v);
    } else if d == 1 {
        node.wests.insert(stage, v);
    } else if d == 2 {
        node.souths.insert(stage, v);
    } else if d == 3 {
        node.norths.insert(stage, v);
    } else if d == 4 {
        node.southeasts.insert(stage, v);
    } else if d == 5 {
        node.southwests.insert(stage, v);
    } else if d == 6 {
        node.northeasts.insert(stage, v);
    } else if d == 7 {
        node.northwests.insert(stage, v);
    }
}

/// Reads the number an item holds; the item must hold one.
fn item_number(item: &str) -> (r: u32)
    requires
        parse_u32(item@) is Some,
    ensures
        r == item_num(item@),
{
    match parse_u32_exec(item) {
        Some(v) => v,
        None => 0,
    }
}

/// The part of a key after its first `@` (see `at_target`).
fn at_target_exec(key: &str) -> (r: String)
    ensures
        r@ == at_target(key@),
{
    proof {
        reveal_strlit("@");
        assert("@"@ =~= seq!['@']);
    }
    let cmds = split_str(key, "@");
    if cmds.len() > 1 {
        assert(views(cmds@)[1] == cmds@[1]@);
        owned(cmds[1].as_str())
    } else {
        String::new()
    }
}

/// Applies the plain (unstaged) part of a `key=item` line.
fn apply_plain_key_exec(node: &mut Node, key: &str, item: &str)
    requires
        (key@ == "id"@ || key@ == "destpos"@ || dir_index(key@) >= 0 || key@ == "east$1"@)
            ==> parse_u32(item@) is Some,
    ensures
        final(node)@ == apply_plain_key(old(node)@, key@, item@),
{
    if str_eq(key, "id") {
        node.id = item_number(item);
    } else if str_eq(key, "name") {
        node.name = owned(item);
    } else if str_eq(key, "look") {
        node.look = owned(item);
    } else if str_eq(key, "look@river") || str_eq(key, "look@path") {
        let cmd = at_target_exec(key);
        node.lookat.insert(cmd.as_str(), item);
    } else if str_eq(key, "climb@up") || str_eq(key, "climb@updone") || str_eq(key, "climb@down") {
        let cmd = at_target_exec(key);
        node.climbat.insert(cmd.as_str(), item);
    } else if str_eq(key, "knock@gate") || str_eq(key, "knock@gatedone") {
        let cmd = at_target_exec(key);
        node.knockat.insert(cmd.as_str(), item);
    } else if str_eq(key, "destpos") {
        node.destpos = item_number(item);
    } else if str_eq(key, "localmaps") {
        node.localmaps = owned(item);
    } else {
        let d = dir_index_exec(key);
        if d >= 0 {
            let v = item_number(item);
            set_exit(node, d, v);
        } else if str_eq(key, "east$1") {
            let v = item_number(item);
            set_staged_exit(node, 0, 1, v);
        }
    }
}

/// Applies the part of a `key=item` line for stage `stage`.
fn apply_stage_exec(node: &mut Node, key: &str, item: &str, stage: u32)
    requires
        contains(key@, stage_mark(stage)) && dir_index(split(key@, seq!['$'])[0]) >= 0 ==> parse_u32(
            item@,
        ) is Some,
    ensures
        final(node)@ == apply_stage(old(node)@, key@, item@, stage),
{
    let mut mark = String::from_str("$");
    let num = u64_text(stage as u64);
    mark.append(num.as_str());
    proof {
        reveal_strlit("$");
        assert(mark@ =~= stage_mark(stage));
        assert("$"@ =~= seq!['$']);
    }
    if contains_exec(key, mark.as_str()) {
        let keys = split_str(key, "$");
        proof {
            crate::text::lemma_split_nonempty(key@, seq!['$']);
        }
        assert(views(keys@)[0] == keys@[0]@);
        let key_cmd = keys[0].as_str();
        if str_eq(key_cmd, "look") {
            node.looks.insert(stage, owned(item));
            assert(text_values(node.looks@) =~= text_values(old(node).looks@).insert(stage, item@));
        } else {
            let d = dir_index_exec(key_cmd);
            if d >= 0 {
                let v = item_number(item);
                set_staged_exit(node, d, stage, v);
            }
        }
    }
}

/// Applies one line of a place's description.
fn read_node_line(node: &mut Node, line: &str)
    requires
        node_line_ok(line@),
    ensures
        final(node)@ == apply_node_line(old(node)@, line@),
{
    proof {
        reveal_strlit("=");
        assert("="@ =~= seq!['=']);
    }
    let group = split_str(line, "=");
    assert(views(group@)[0] == group@[0]@);
    let key = group[0].as_str();
    let item_s = if group.len() > 1 {
        assert(views(group@)[1] == group@[1]@);
        owned(group[1].as_str())
    } else {
        String::new()
    };
    let item = item_s.as_str();
    assert(key@ == line_key(line@));
    assert(item@ == line_item(line@));
    apply_plain_key_exec(node, key, item);
    apply_stage_exec(node, key, item, 1);
    apply_stage_exec(node, key, item, 2);
    apply_stage_exec(node, key, item, 3);
    apply_stage_exec(node, key, item, 4);
}

/// Whether a line of a place's description can be read (see `node_line_ok`).
pub fn node_line_ok_exec(line: &str) -> (b: bool)
    ensures
        b == node_line_ok(line@),
{
    let (key, item) = crate::quest::key_and_item(line);
    let k = key.as_str();
    if parse_u32_exec(item.as_str()).is_some() {
        return true;
    }
    if str_eq(k, "id") || str_eq(k, "destpos") || dir_index_exec(k) >= 0 || str_eq(k, "east$1") {
        return false;
    }
    proof {
        reveal_strlit("$");
        assert("$"@ =~= seq!['$']);
        crate::text::lemma_split_nonempty(key@, seq!['$']);
    }
    let keys = split_str(k, "$");
    assert(views(keys@)[0] == keys@[0]@);
    if dir_index_exec(keys[0].as_str()) < 0 {
        return true;
    }
    let mut stage: u32 = 1;
    while stage <= 4
        invariant
            1 <= stage <= 5,
            k@ == key@,
            key@ == line_key(line@),
            item@ == line_item(line@),
            parse_u32(item@) is None,
            dir_index(split(key@, seq!['$'])[0]) >= 0,
            forall|t: u32| 1 <= t < stage ==> !contains(key@, #[trigger] stage_mark(t)),
        decreases 5 - stage,
    {
        let mut mark = String::from_str("$");
        let num = u64_text(stage as u64);
        mark.append(num.as_str());
        proof {
            reveal_strlit("$");
            assert(mark@ =~= stage_mark(stage));
        }
        if contains_exec(k, mark.as_str()) {
            proof {
                assert(contains(line_key(line@), stage_mark(stage)));
                assert(!node_line_ok(line@));
            }
            return false;
        }
        assert(!contains(key@, stage_mark(stage)));
        stage += 1;
    }
    true
}

/// Whether every line of every block of a map file can be read (see `map_text_ok`).
pub fn map_text_ok_exec(buf: &str) -> (b: bool)
    ensures
        b == map_text_ok(buf@),
{
    proof {
        reveal_strlit("[node]");
        reveal_strlit("=");
        assert("="@ =~= seq!['=']);
    }
    let blocks = split_str(buf, "[node]");
    let ghost bv = views(blocks@);
    let mut b: usize = 0;
    while b < blocks.len()
        invariant
            bv == views(blocks@),
            bv == node_blocks(buf@),
            "="@ == seq!['='],
            b <= blocks@.len(),
            forall|c: int, i: int|
                0 <= c < b && contains(bv[c], seq!['=']) && 0 <= i < lines(bv[c]).len()
                    ==> node_line_ok(#[trigger] lines(#[trigger] bv[c])[i]),
        decreases blocks@.len() - b,
    {
        let block = blocks[b].as_str();
        assert(block@ == bv[b as int]);
        if contains_exec(block, "=") {
            let ls = lines_str(block);
            let mut i: usize = 0;
            while i < ls.len()
                invariant
                    b < bv.len(),
                    bv == node_blocks(buf@),
                    contains(bv[b as int], seq!['=']),
                    views(ls@) == lines(bv[b as int]),
                    i <= ls@.len(),
                    forall|k: int| 0 <= k < i ==> node_line_ok(#[trigger] lines(bv[b as int])[k]),
                decreases ls@.len() - i,
            {
                assert(views(ls@)[i as int] == ls@[i as int]@);
                if !node_line_ok_exec(ls[i].as_str()) {
                    proof {
                        assert(!node_line_ok(lines(bv[b as int])[i as int]));
                    }
                    return false;
                }
                i += 1;
            }
            assert(forall|k: int| 0 <= k < lines(bv[b as int]).len() ==> node_line_ok(#[trigger] lines(bv[b as int])[k]));
        }
        b += 1;
    }
    true
}

/// Reads the places of a map file, keyed by identifier (see `nodes_of_blocks`); every numeric
/// item must be a valid `u32`.
pub fn init_map(buf: &str) -> (r: HashMap<u32, Node>)
    requires
        map_text_ok(buf@),
    ensures
        holds_nodes(r@, nodes_of_blocks(node_blocks(buf@))),
{
    let mut nodes: HashMap<u32, Node> = HashMap::new();
    proof {
        reveal_strlit("[node]");
    }
    let blocks = split_str(buf, "[node]");
    let ghost bv = views(blocks@);
    let mut b: usize = 0;
    assert(bv.take(0) =~= seq![]);
    assert(nodes_of_blocks(bv.take(0)) == Map::<u32, NodeView>::empty());
    assert(nodes@.dom() =~= Set::<u32>::empty());
    while b < blocks.len()
        invariant
            bv == views(blocks@),
            bv == node_blocks(buf@),
            map_text_ok(buf@),
            b <= blocks@.len(),
            holds_nodes(nodes@, nodes_of_blocks(bv.take(b as int))),
        decreases blocks@.len() - b,
    {
        let block = blocks[b].as_str();
        assert(block@ == bv[b as int]);
        assert(bv.take(b + 1).drop_last() =~= bv.take(b as int));
        proof {
            reveal_strlit("=");
            assert("="@ =~= seq!['=']);
        }
        if contains_exec(block, "=") {
            let mut node = Node::new();
            let ls = lines_str(block);
            let ghost lv = lines(block@);
            let mut i: usize = 0;
            assert(lv.take(0) =~= seq![]);
            while i < ls.len()
                invariant
                    views(ls@) == lv,
                    lv == lines(bv[b as int]),
                    forall|k: int| 0 <= k < lv.len() ==> node_line_ok(#[trigger] lv[k]),
                    i <= ls@.len(),
                    node@ == apply_node_lines(blank_node(), lv.take(i as int)),
                decreases ls@.len() - i,
            {
                assert(ls@[i as int]@ == lv[i as int]);
                read_node_line(&mut node, ls[i].as_str());
                i += 1;
                assert(lv.take(i as int).drop_last() =~= lv.take(i - 1));
            }
            assert(lv.take(ls@.len() as int) =~= lv);
            let ghost n = node@;
            nodes.insert(node.id, node);
            proof {
                let ns = nodes_of_blocks(bv.take(b + 1));
                assert(ns == nodes_of_blocks(bv.take(b as int)).insert(n.id, n));
                assert(nodes@.dom() =~= ns.dom());
            }
        }
        b += 1;
    }
    assert(bv.take(blocks@.len() as int) =~= bv);
    nodes
}

}
