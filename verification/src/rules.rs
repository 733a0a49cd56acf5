//! The tool rule engine: which rule of a tool speaks for a material.
//!
//! A rule names materials by identifier or by tag reference (`#` and the
//! tag's name). The first rule, in order, that governs the concern asked
//! about and names the material decides; later rules are never consulted.

use vstd::prelude::*;
use crate::definition::{names_of, MiningSpeed, ToolComponent, ToolRule, ToolRuleView, ToolView};
use crate::registry::{Registry, RegistryKey, TagTable};
use crate::text::{str_eq, strip_prefix};

verus! {

/// What a query asks a tool about.
#[derive(Clone, Copy, Debug, PartialEq, Eq, Structural)]
pub enum Concern {
    Speed,
    Drops,
}

/// The tag that `entry` refers to, if it is a tag reference.
pub open spec fn tag_reference(entry: Seq<char>) -> Option<Seq<char>> {
    if entry.len() > 0 && entry[0] == '#' {
        Some(entry.skip(1))
    } else {
        None
    }
}

/// Whether one entry of a rule names `block`: literally, or as a reference
/// to a tag that resolves and has `block` among its members.
pub open spec fn entry_matches(entry: Seq<char>, block: Seq<char>, tags: TagTable) -> bool {
    entry == block || match tag_reference(entry) {
        Some(name) => tags.contains_key(name) && tags[name].contains(block),
        None => false,
    }
}

/// Whether some entry of `blocks` names `block`.
pub open spec fn blocks_match(blocks: Seq<Seq<char>>, block: Seq<char>, tags: TagTable) -> bool {
    exists|j: int| 0 <= j < blocks.len() && entry_matches(#[trigger] blocks[j], block, tags)
}

impl ToolRuleView {
    /// Whether the rule sets the attribute that `concern` asks about.
    pub open spec fn governs(self, concern: Concern) -> bool {
        match concern {
            Concern::Speed => self.speed is Some,
            Concern::Drops => self.correct_for_drops is Some,
        }
    }

    /// Whether the rule decides `concern` for `block`.
    pub open spec fn applies(self, concern: Concern, block: Seq<char>, tags: TagTable) -> bool {
        self.governs(concern) && blocks_match(self.blocks, block, tags)
    }
}

/// Whether rule `i` applies and no rule before it does.
pub open spec fn is_deciding_rule(
    rules: Seq<ToolRuleView>,
    concern: Concern,
    block: Seq<char>,
    tags: TagTable,
    i: int,
) -> bool {
    &&& 0 <= i < rules.len()
    &&& rules[i].applies(concern, block, tags)
    &&& forall|k: int| 0 <= k < i ==> !(#[trigger] rules[k]).applies(concern, block, tags)
}

/// The index of the rule that decides `concern` for `block`, if any does.
pub open spec fn deciding_rule(
    rules: Seq<ToolRuleView>,
    concern: Concern,
    block: Seq<char>,
    tags: TagTable,
) -> Option<int> {
    if exists|i: int| is_deciding_rule(rules, concern, block, tags, i) {
        Some(choose|i: int| is_deciding_rule(rules, concern, block, tags, i))
    } else {
        None
    }
}

/// At most one rule decides.
pub proof fn lemma_deciding_rule_unique(
    rules: Seq<ToolRuleView>,
    concern: Concern,
    block: Seq<char>,
    tags: TagTable,
    i: int,
)
    requires
        is_deciding_rule(rules, concern, block, tags, i),
    ensures
        deciding_rule(rules, concern, block, tags) == Some(i),
{
}

/// Where no rule applies, none decides.
pub proof fn lemma_no_deciding_rule(
    rules: Seq<ToolRuleView>,
    concern: Concern,
    block: Seq<char>,
    tags: TagTable,
)
    requires
        forall|k: int|
            0 <= k < rules.len() ==> !(#[trigger] rules[k]).applies(concern, block, tags),
    ensures
        deciding_rule(rules, concern, block, tags) is None,
{
}

impl ToolView {
    /// The mining speed of the tool against `block`: that of the deciding
    /// rule, else the tool's default, else the normal speed.
    pub open spec fn speed_for(self, block: Seq<char>, tags: TagTable) -> MiningSpeed {
        match deciding_rule(self.rules, Concern::Speed, block, tags) {
            Some(i) => self.rules[i].speed->0,
            None => match self.default_mining_speed {
                Some(speed) => speed,
                None => MiningSpeed::spec_normal(),
            },
        }
    }

    /// Whether the tool is the right one for the drops of `block`: what the
    /// deciding rule says, and no where no rule decides.
    pub open spec fn correct_for_drops(self, block: Seq<char>, tags: TagTable) -> bool {
        match deciding_rule(self.rules, Concern::Drops, block, tags) {
            Some(i) => self.rules[i].correct_for_drops->0,
            None => false,
        }
    }
}

/// Rule order: where a rule decides the speed for a material, it is that
/// rule's speed that the tool has, whatever later rules say of the material.
pub proof fn law_first_speed_rule_wins(
    tool: ToolView,
    block: Seq<char>,
    tags: TagTable,
    first: int,
    second: int,
)
    requires
        0 <= first < second < tool.rules.len(),
        tool.rules[first].applies(Concern::Speed, block, tags),
        tool.rules[second].applies(Concern::Speed, block, tags),
        forall|k: int|
            0 <= k < first ==> !(#[trigger] tool.rules[k]).applies(Concern::Speed, block, tags),
    ensures
        tool.speed_for(block, tags) == tool.rules[first].speed->0,
        tool.rules[first].speed != tool.rules[second].speed ==> tool.speed_for(block, tags)
            != tool.rules[second].speed->0,
{
    lemma_deciding_rule_unique(tool.rules, Concern::Speed, block, tags, first);
}

/// Rule order, for drops: where a rule decides whether the tool is right for
/// the drops of a material, later rules are not heard.
pub proof fn law_first_drops_rule_wins(
    tool: ToolView,
    block: Seq<char>,
    tags: TagTable,
    first: int,
    second: int,
)
    requires
        0 <= first < second < tool.rules.len(),
        tool.rules[first].applies(Concern::Drops, block, tags),
        tool.rules[second].applies(Concern::Drops, block, tags),
        forall|k: int|
            0 <= k < first ==> !(#[trigger] tool.rules[k]).applies(Concern::Drops, block, tags),
    ensures
        tool.correct_for_drops(block, tags) == tool.rules[first].correct_for_drops->0,
{
    lemma_deciding_rule_unique(tool.rules, Concern::Drops, block, tags, first);
}

/// Tag fallback: an entry that refers to a tag which resolves and has the
/// material among its members makes its rule name the material, whatever the
/// rule's other entries are.
pub proof fn law_tag_entry_names_block(
    blocks: Seq<Seq<char>>,
    j: int,
    group: Seq<char>,
    block: Seq<char>,
    tags: TagTable,
)
    requires
        0 <= j < blocks.len(),
        blocks[j] == seq!['#'] + group,
        tags.contains_key(group),
        tags[group].contains(block),
    ensures
        blocks_match(blocks, block, tags),
{
    assert(blocks[j].skip(1) =~= group);
}

/// Tag fallback, seen from the tool: the first rule that sets a speed and
/// holds such an entry gives the tool its speed for the material.
pub proof fn law_tag_entry_decides_speed(
    tool: ToolView,
    i: int,
    j: int,
    group: Seq<char>,
    block: Seq<char>,
    tags: TagTable,
)
    requires
        0 <= i < tool.rules.len(),
        tool.rules[i].speed is Some,
        0 <= j < tool.rules[i].blocks.len(),
        tool.rules[i].blocks[j] == seq!['#'] + group,
        tags.contains_key(group),
        tags[group].contains(block),
        forall|k: int|
            0 <= k < i ==> !(#[trigger] tool.rules[k]).applies(Concern::Speed, block, tags),
    ensures
        tool.speed_for(block, tags) == tool.rules[i].speed->0,
{
    law_tag_entry_names_block(tool.rules[i].blocks, j, group, block, tags);
    lemma_deciding_rule_unique(tool.rules, Concern::Speed, block, tags, i);
}

/// Tag fallback, for drops: the first rule that says whether the tool is
/// right and holds such an entry decides for the material.
pub proof fn law_tag_entry_decides_drops(
    tool: ToolView,
    i: int,
    j: int,
    group: Seq<char>,
    block: Seq<char>,
    tags: TagTable,
)
    requires
        0 <= i < tool.rules.len(),
        tool.rules[i].correct_for_drops is Some,
        0 <= j < tool.rules[i].blocks.len(),
        tool.rules[i].blocks[j] == seq!['#'] + group,
        tags.contains_key(group),
        tags[group].contains(block),
        forall|k: int|
            0 <= k < i ==> !(#[trigger] tool.rules[k]).applies(Concern::Drops, block, tags),
    ensures
        tool.correct_for_drops(block, tags) == tool.rules[i].correct_for_drops->0,
{
    law_tag_entry_names_block(tool.rules[i].blocks, j, group, block, tags);
    lemma_deciding_rule_unique(tool.rules, Concern::Drops, block, tags, i);
}

/// A reference to a tag that does not resolve names no material but the one
/// that is spelled like the entry itself: the entry is passed over.
pub proof fn law_unresolved_tag_names_nothing(
    entry: Seq<char>,
    group: Seq<char>,
    block: Seq<char>,
    tags: TagTable,
)
    requires
        entry == seq!['#'] + group,
        !tags.contains_key(group),
    ensures
        entry_matches(entry, block, tags) <==> entry == block,
{
    assert(entry.skip(1) =~= group);
}

/// A rule none of whose entries is the material or a reference to a tag that
/// resolves does not name the material.
pub proof fn law_unresolved_tags_skipped(blocks: Seq<Seq<char>>, block: Seq<char>, tags: TagTable)
    requires
        forall|j: int|
            0 <= j < blocks.len() ==> (#[trigger] blocks[j]) != block && (match tag_reference(
                blocks[j],
            ) {
                Some(group) => !tags.contains_key(group),
                None => true,
            }),
    ensures
        !blocks_match(blocks, block, tags),
{
}

/// The tags that the entries `blocks` refer to, in their order.
pub open spec fn entry_tags(blocks: Seq<Seq<char>>) -> Seq<Seq<char>>
    decreases blocks.len(),
{
    if blocks.len() == 0 {
        Seq::empty()
    } else {
        match tag_reference(blocks.last()) {
            Some(name) => entry_tags(blocks.drop_last()).push(name),
            None => entry_tags(blocks.drop_last()),
        }
    }
}

/// The tags that the rules `rules` refer to, in their order.
pub open spec fn referenced_tags(rules: Seq<ToolRuleView>) -> Seq<Seq<char>>
    decreases rules.len(),
{
    if rules.len() == 0 {
        Seq::empty()
    } else {
        referenced_tags(rules.drop_last()) + entry_tags(rules.last().blocks)
    }
}

/// Whether two tables resolve each of the tags `names` alike.
pub open spec fn agree_on(names: Seq<Seq<char>>, a: TagTable, b: TagTable) -> bool {
    forall|k: int| 0 <= k < names.len() ==> a.get(#[trigger] names[k]) == b.get(names[k])
}

/// The tag that an entry refers to is among the tags of its entries.
pub proof fn lemma_entry_tag_listed(blocks: Seq<Seq<char>>, j: int)
    requires
        0 <= j < blocks.len(),
        tag_reference(blocks[j]) is Some,
    ensures
        entry_tags(blocks).contains(tag_reference(blocks[j])->0),
    decreases blocks.len(),
{
    let name = tag_reference(blocks[j])->0;
    if j == blocks.len() - 1 {
        let listed = entry_tags(blocks);
        assert(listed[listed.len() - 1] == name);
    } else {
        lemma_entry_tag_listed(blocks.drop_last(), j);
        let before = entry_tags(blocks.drop_last());
        let k = choose|k: int| 0 <= k < before.len() && before[k] == name;
        assert(entry_tags(blocks)[k] == name);
    }
}

/// The tag that an entry of a rule refers to is among the tags of the rules.
pub proof fn lemma_rule_tag_listed(rules: Seq<ToolRuleView>, i: int, j: int)
    requires
        0 <= i < rules.len(),
        0 <= j < rules[i].blocks.len(),
        tag_reference(rules[i].blocks[j]) is Some,
    ensures
        referenced_tags(rules).contains(tag_reference(rules[i].blocks[j])->0),
    decreases rules.len(),
{
    let name = tag_reference(rules[i].blocks[j])->0;
    let before = referenced_tags(rules.drop_last());
    let here = entry_tags(rules.last().blocks);
    if i == rules.len() - 1 {
        lemma_entry_tag_listed(rules[i].blocks, j);
        let k = choose|k: int| 0 <= k < here.len() && here[k] == name;
        assert((before + here)[before.len() + k] == name);
    } else {
        lemma_rule_tag_listed(rules.drop_last(), i, j);
        let k = choose|k: int| 0 <= k < before.len() && before[k] == name;
        assert((before + here)[k] == name);
    }
}

/// Tables that resolve the tags of the rules alike give every rule the same
/// say.
pub proof fn lemma_same_tags_same_rules(
    rules: Seq<ToolRuleView>,
    concern: Concern,
    block: Seq<char>,
    a: TagTable,
    b: TagTable,
)
    requires
        agree_on(referenced_tags(rules), a, b),
    ensures
        forall|i: int|
            0 <= i < rules.len() ==> (#[trigger] rules[i]).applies(concern, block, a)
                == rules[i].applies(concern, block, b),
        deciding_rule(rules, concern, block, a) == deciding_rule(rules, concern, block, b),
{
    let listed = referenced_tags(rules);
    assert forall|i: int, j: int|
        0 <= i < rules.len() && 0 <= j < rules[i].blocks.len() implies entry_matches(
        #[trigger] rules[i].blocks[j],
        block,
        a,
    ) == entry_matches(rules[i].blocks[j], block, b) by {
        if tag_reference(rules[i].blocks[j]) is Some {
            lemma_rule_tag_listed(rules, i, j);
            let name = tag_reference(rules[i].blocks[j])->0;
            let k = choose|k: int| 0 <= k < listed.len() && listed[k] == name;
            assert(a.get(listed[k]) == b.get(listed[k]));
        }
    }
    assert forall|i: int| 0 <= i < rules.len() implies (#[trigger] rules[i]).applies(
        concern,
        block,
        a,
    ) == rules[i].applies(concern, block, b) by {
        let blocks = rules[i].blocks;
        if blocks_match(blocks, block, a) {
            let j = choose|j: int| 0 <= j < blocks.len() && entry_matches(blocks[j], block, a);
            assert(entry_matches(rules[i].blocks[j], block, b));
        }
        if blocks_match(blocks, block, b) {
            let j = choose|j: int| 0 <= j < blocks.len() && entry_matches(blocks[j], block, b);
            assert(entry_matches(rules[i].blocks[j], block, a));
        }
    }
    match deciding_rule(rules, concern, block, a) {
        Some(i) => {
            assert(is_deciding_rule(rules, concern, block, a, i));
            assert(is_deciding_rule(rules, concern, block, b, i));
            lemma_deciding_rule_unique(rules, concern, block, b, i);
        },
        None => {
            match deciding_rule(rules, concern, block, b) {
                Some(i) => {
                    assert(is_deciding_rule(rules, concern, block, b, i));
                    assert(is_deciding_rule(rules, concern, block, a, i));
                },
                None => {},
            }
        },
    }
}

/// Only the tags that a tool's rules refer to count: two tables that resolve
/// each of them alike give the tool the same speed against every material,
/// and the same answer on its drops.
pub proof fn law_only_referenced_tags_count(
    tool: ToolView,
    block: Seq<char>,
    a: TagTable,
    b: TagTable,
)
    requires
        agree_on(referenced_tags(tool.rules), a, b),
    ensures
        tool.speed_for(block, a) == tool.speed_for(block, b),
        tool.correct_for_drops(block, a) == tool.correct_for_drops(block, b),
{
    lemma_same_tags_same_rules(tool.rules, Concern::Speed, block, a, b);
    lemma_same_tags_same_rules(tool.rules, Concern::Drops, block, a, b);
}

/// Whether `name` is among `values`.
pub fn contains_name(values: &Vec<String>, name: &str) -> (found: bool)
    ensures
        found == names_of(values@).contains(name@),
{
    let mut i: usize = 0;
    while i < values.len()
        invariant
            i <= values.len(),
            forall|k: int| 0 <= k < i ==> names_of(values@)[k] != name@,
        decreases values.len() - i,
    {
        if str_eq(values[i].as_str(), name) {
            assert(names_of(values@)[i as int] == name@);
            return true;
        }
        i += 1;
    }
    false
}

/// Whether one entry of a rule names `block`, with tags resolved in
/// `registry`. A tag that does not resolve names nothing.
pub fn entry_names_block(entry: &str, block: &str, registry: &Registry) -> (named: bool)
    ensures
        named == entry_matches(entry@, block@, registry@.block_tags),
{
    if str_eq(entry, block) {
        return true;
    }
    proof {
        reveal_strlit("#");
    }
    match strip_prefix(entry, "#") {
        Some(name) => {
            assert(tag_reference(entry@) == Some(name@));
            match registry.resolve_tag(RegistryKey::Block, name) {
                Some(values) => contains_name(values, block),
                None => false,
            }
        },
        None => {
            assert(tag_reference(entry@) is None);
            false
        },
    }
}

impl ToolComponent {
    /// The names of the tags that the rules refer to, in their order: the
    /// tags that a registry has to resolve for this tool.
    pub fn referenced_tags(&self) -> (tags: Vec<String>)
        ensures
            names_of(tags@) == referenced_tags(self@.rules),
    {
        let mut tags: Vec<String> = Vec::new();
        let mut i: usize = 0;
        proof {
            reveal_strlit("#");
        }
        while i < self.rules.len()
            invariant
                i <= self.rules.len(),
                "#"@.len() == 1,
                "#"@[0] == '#',
                names_of(tags@) == referenced_tags(self@.rules.take(i as int)),
            decreases self.rules.len() - i,
        {
            let rule = &self.rules[i];
            let ghost before = names_of(tags@);
            let mut j: usize = 0;
            while j < rule.blocks.len()
                invariant
                    j <= rule.blocks.len(),
                    "#"@.len() == 1,
                    "#"@[0] == '#',
                    names_of(tags@) == before + entry_tags(rule@.blocks.take(j as int)),
                decreases rule.blocks.len() - j,
            {
                let ghost entries = rule@.blocks.take(j + 1);
                assert(entries.drop_last() =~= rule@.blocks.take(j as int));
                assert(entries.last() == rule.blocks[j as int]@);
                match strip_prefix(rule.blocks[j].as_str(), "#") {
                    Some(name) => {
                        assert(tag_reference(entries.last()) == Some(name@));
                        let ghost listed = names_of(tags@);
                        tags.push(name.to_owned());
                        assert(names_of(tags@) =~= listed.push(name@));
                        assert(entry_tags(entries) == entry_tags(entries.drop_last()).push(name@));
                        assert(listed.push(name@) =~= before + entry_tags(entries));
                    },
                    None => {
                        assert(tag_reference(entries.last()) is None);
                    },
                }
                j += 1;
            }
            proof {
                let rules = self@.rules.take(i + 1);
                assert(rules.drop_last() =~= self@.rules.take(i as int));
                assert(rules.last() == rule@);
                assert(rule@.blocks.take(j as int) =~= rule@.blocks);
            }
            i += 1;
        }
        assert(self@.rules.take(i as int) =~= self@.rules);
        tags
    }
}

impl ToolRule {
    /// Whether some entry of the rule names `block`.
    pub fn names_block(&self, block: &str, registry: &Registry) -> (named: bool)
        ensures
            named == blocks_match(self@.blocks, block@, registry@.block_tags),
    {
        let mut j: usize = 0;
        while j < self.blocks.len()
            invariant
                j <= self.blocks.len(),
                forall|k: int|
                    0 <= k < j ==> !entry_matches(
                        #[trigger] self@.blocks[k],
                        block@,
                        registry@.block_tags,
                    ),
            decreases self.blocks.len() - j,
        {
            if entry_names_block(self.blocks[j].as_str(), block, registry) {
                assert(entry_matches(self@.blocks[j as int], block@, registry@.block_tags));
                return true;
            }
            j += 1;
        }
        false
    }
}

} // verus!
