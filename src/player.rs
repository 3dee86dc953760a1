//! Per-player statistics, read from a player's statistics and advancements
//! records.

use vstd::prelude::*;
use crate::ident::{parse_uuid, uuid_value_of};

verus! {

/// A player: display name and unique id.
#[derive(Debug)]
pub struct PlayerId {
    pub username: String,
    pub uuid: u128,
}

/// One named counter of a statistics section.
#[derive(Debug)]
pub struct Counter {
    pub name: String,
    pub value: u32,
}

/// A statistics section, such as the blocks mined: counters by name.
#[derive(Debug)]
pub struct StatSection {
    pub name: String,
    pub counters: Vec<Counter>,
}

/// A player's statistics record: the sections under its `stats` entry.
#[derive(Debug)]
pub struct StatsDocument {
    pub sections: Vec<StatSection>,
}

/// One advancement and whether it is completed.
#[derive(Debug)]
pub struct Advancement {
    pub name: String,
    pub done: bool,
}

/// A player's advancements record.
#[derive(Debug)]
pub struct AdvancementsDocument {
    pub entries: Vec<Advancement>,
}

/// A player's statistics.
#[derive(Debug)]
pub struct PlayerStats {
    pub id: PlayerId,
    pub blocks_mined: u64,
    pub items_picked_up: u64,
    pub items_used: u64,
    pub items_crafted: u64,
    pub mobs_killed: u64,
    pub deaths: u64,
    pub jumps: u64,
    pub minutes_played: u64,
    pub damage_taken: u64,
    pub damage_dealt: u64,
    pub advancements_completed: u64,
    pub distance_travelled: u64,
}

/// Game ticks in one minute of play.
pub const TICKS_PER_MINUTE: u64 = 1200;

/// `n`, or the largest `u64` where `n` does not fit.
pub open spec fn capped(n: nat) -> u64 {
    if n > u64::MAX {
        u64::MAX
    } else {
        n as u64
    }
}

/// Sum of the values of the counters `cs`.
pub open spec fn counter_total(cs: Seq<Counter>) -> nat
    decreases cs.len(),
{
    if cs.len() == 0 {
        0
    } else {
        counter_total(cs.drop_last()) + cs.last().value as nat
    }
}

/// Value of the first counter at or after `i` named `key`, or zero.
pub open spec fn counter_value(cs: Seq<Counter>, key: Seq<char>, i: int) -> nat
    decreases cs.len() - i,
{
    if i < 0 || i >= cs.len() {
        0
    } else if cs[i].name@ == key {
        cs[i].value as nat
    } else {
        counter_value(cs, key, i + 1)
    }
}

/// Index of the first section at or after `i` named `key`, if any.
pub open spec fn section_index(secs: Seq<StatSection>, key: Seq<char>, i: int) -> Option<int>
    decreases secs.len() - i,
{
    if i < 0 || i >= secs.len() {
        None
    } else if secs[i].name@ == key {
        Some(i)
    } else {
        section_index(secs, key, i + 1)
    }
}

/// Sum of the counters of the section named `key`; zero where it is absent.
pub open spec fn section_total(secs: Seq<StatSection>, key: Seq<char>) -> nat {
    match section_index(secs, key, 0) {
        Some(i) => counter_total(secs[i].counters@),
        None => 0,
    }
}

/// Value of the counter `key` of the section of miscellaneous counters;
/// zero where either is absent.
pub open spec fn custom_value(secs: Seq<StatSection>, key: Seq<char>) -> nat {
    match section_index(secs, "minecraft:custom"@, 0) {
        Some(i) => counter_value(secs[i].counters@, key, 0),
        None => 0,
    }
}

/// Sum of the distance counters, in centimetres.
pub open spec fn distance_total(secs: Seq<StatSection>) -> nat {
    custom_value(secs, "minecraft:climb_one_cm"@) + custom_value(secs, "minecraft:crouch_one_cm"@)
        + custom_value(secs, "minecraft:fall_one_cm"@) + custom_value(secs, "minecraft:fly_one_cm"@)
        + custom_value(secs, "minecraft:sprint_one_cm"@) + custom_value(secs, "minecraft:swim_one_cm"@)
        + custom_value(secs, "minecraft:walk_one_cm"@) + custom_value(secs, "minecraft:walk_on_water_one_cm"@)
        + custom_value(secs, "minecraft:walk_under_water_one_cm"@)
}

/// Number of completed advancements among `es`.
pub open spec fn completed_count(es: Seq<Advancement>) -> nat
    decreases es.len(),
{
    if es.len() == 0 {
        0
    } else {
        completed_count(es.drop_last()) + if es.last().done { 1nat } else { 0nat }
    }
}

/// Statistics of the player `id` as its two records give them.
pub open spec fn stats_from(id: PlayerId, doc: StatsDocument, adv: AdvancementsDocument) -> PlayerStats {
    let secs = doc.sections@;
    PlayerStats {
        id: id,
        blocks_mined: capped(section_total(secs, "minecraft:mined"@)),
        items_picked_up: capped(section_total(secs, "minecraft:picked_up"@)),
        items_used: capped(section_total(secs, "minecraft:used"@)),
        items_crafted: capped(section_total(secs, "minecraft:crafted"@)),
        mobs_killed: custom_value(secs, "minecraft:mob_kills"@) as u64,
        deaths: custom_value(secs, "minecraft:deaths"@) as u64,
        jumps: custom_value(secs, "minecraft:jump"@) as u64,
        minutes_played: (custom_value(secs, "minecraft:play_time"@) / TICKS_PER_MINUTE as nat) as u64,
        damage_taken: custom_value(secs, "minecraft:damage_taken"@) as u64,
        damage_dealt: custom_value(secs, "minecraft:damage_dealt"@) as u64,
        advancements_completed: completed_count(adv.entries@) as u64,
        distance_travelled: distance_total(secs) as u64,
    }
}

proof fn lemma_counter_value_bound(cs: Seq<Counter>, key: Seq<char>, i: int)
    ensures
        counter_value(cs, key, i) <= u32::MAX,
    decreases cs.len() - i,
{
    if 0 <= i < cs.len() && cs[i].name@ != key {
        lemma_counter_value_bound(cs, key, i + 1);
    }
}

proof fn lemma_completed_bound(es: Seq<Advancement>)
    ensures
        completed_count(es) <= es.len(),
    decreases es.len(),
{
    if es.len() > 0 {
        lemma_completed_bound(es.drop_last());
    }
}

/// Sum of the values of `cs`, capped at the largest `u64`.
fn total_of(cs: &Vec<Counter>) -> (r: u64)
    ensures
        r == capped(counter_total(cs@)),
{
    let mut acc: u64 = 0;
    let mut i: usize = 0;
    while i < cs.len()
        invariant
            i <= cs.len(),
            acc == capped(counter_total(cs@.subrange(0, i as int))),
        decreases cs.len() - i,
    {
        assert(cs@.subrange(0, i + 1).drop_last() =~= cs@.subrange(0, i as int));
        acc = acc.saturating_add(cs[i].value as u64);
        i = i + 1;
    }
    assert(cs@.subrange(0, i as int) =~= cs@);
    acc
}

/// Value of the counter named `key`, or zero.
fn value_of(cs: &Vec<Counter>, key: &String) -> (r: u64)
    ensures
        r as nat == counter_value(cs@, key@, 0),
{
    let mut i: usize = 0;
    while i < cs.len()
        invariant
            i <= cs.len(),
            counter_value(cs@, key@, 0) == counter_value(cs@, key@, i as int),
        decreases cs.len() - i,
    {
        if cs[i].name == *key {
            return cs[i].value as u64;
        }
        i = i + 1;
    }
    0
}

/// Index of the section named `key`, if any.
fn find_section(secs: &Vec<StatSection>, key: &String) -> (r: Option<usize>)
    ensures
        r is None <==> section_index(secs@, key@, 0) is None,
        r matches Some(i) ==> section_index(secs@, key@, 0) == Some(i as int) && i < secs.len(),
{
    let mut i: usize = 0;
    while i < secs.len()
        invariant
            i <= secs.len(),
            section_index(secs@, key@, 0) == section_index(secs@, key@, i as int),
        decreases secs.len() - i,
    {
        if secs[i].name == *key {
            return Some(i);
        }
        i = i + 1;
    }
    None
}

impl PlayerId {
    /// The player whose unique id is written as `uuid`, under the display
    /// name `username`; `None` where `uuid` is not a unique id.
    pub fn from_uuid_str(uuid: &str, username: String) -> (r: Option<PlayerId>)
        ensures
            match uuid_value_of(uuid@) {
                Some(v) => r matches Some(p) && p.uuid == v && p.username == username,
                None => r is None,
            },
    {
        match parse_uuid(uuid) {
            Some(v) => Some(PlayerId { username, uuid: v }),
            None => None,
        }
    }
}

impl StatsDocument {
    /// Sum of all counters of the section `key`, capped at the largest
    /// `u64`; zero where the section is absent.
    pub fn section_sum(&self, key: &str) -> (r: u64)
        ensures
            r == capped(section_total(self.sections@, key@)),
    {
        let k = key.to_owned();
        match find_section(&self.sections, &k) {
            Some(i) => total_of(&self.sections[i].counters),
            None => 0,
        }
    }

    /// Value of the miscellaneous counter `key`; zero where it is absent.
    pub fn custom(&self, key: &str) -> (r: u64)
        ensures
            r as nat == custom_value(self.sections@, key@),
    {
        let k = key.to_owned();
        let section = "minecraft:custom".to_owned();
        match find_section(&self.sections, &section) {
            Some(i) => value_of(&self.sections[i].counters, &k),
            None => 0,
        }
    }
}

impl AdvancementsDocument {
    /// Number of completed advancements.
    pub fn completed(&self) -> (r: u64)
        ensures
            r as nat == completed_count(self.entries@),
    {
        let mut n: u64 = 0;
        let mut i: usize = 0;
        while i < self.entries.len()
            invariant
                i <= self.entries.len(),
                n as nat == completed_count(self.entries@.subrange(0, i as int)),
            decreases self.entries.len() - i,
        {
            assert(self.entries@.subrange(0, i + 1).drop_last() =~= self.entries@.subrange(
                0,
                i as int,
            ));
            proof {
                lemma_completed_bound(self.entries@.subrange(0, i as int));
            }
            if self.entries[i].done {
                n = n + 1;
            }
            i = i + 1;
        }
        assert(self.entries@.subrange(0, i as int) =~= self.entries@);
        n
    }
}

impl PlayerStats {
    /// Builds a player's statistics from its two records: section sums for
    /// blocks and items, exact counters for the rest, the distance counters
    /// added up, and the completed advancements counted.
    pub fn from_records(id: PlayerId, doc: &StatsDocument, adv: &AdvancementsDocument) -> (r:
        PlayerStats)
        ensures
            r == stats_from(id, *doc, *adv),
    {
        let secs = &doc.sections;
        proof {
            lemma_custom_bound(secs@, "minecraft:climb_one_cm"@);
            lemma_custom_bound(secs@, "minecraft:crouch_one_cm"@);
            lemma_custom_bound(secs@, "minecraft:fall_one_cm"@);
            lemma_custom_bound(secs@, "minecraft:fly_one_cm"@);
            lemma_custom_bound(secs@, "minecraft:sprint_one_cm"@);
            lemma_custom_bound(secs@, "minecraft:swim_one_cm"@);
            lemma_custom_bound(secs@, "minecraft:walk_one_cm"@);
            lemma_custom_bound(secs@, "minecraft:walk_on_water_one_cm"@);
            lemma_custom_bound(secs@, "minecraft:walk_under_water_one_cm"@);
        }
        let distance = doc.custom("minecraft:climb_one_cm") + doc.custom("minecraft:crouch_one_cm")
            + doc.custom("minecraft:fall_one_cm") + doc.custom("minecraft:fly_one_cm") + doc.custom(
            "minecraft:sprint_one_cm",
        ) + doc.custom("minecraft:swim_one_cm") + doc.custom("minecraft:walk_one_cm") + doc.custom(
            "minecraft:walk_on_water_one_cm",
        ) + doc.custom("minecraft:walk_under_water_one_cm");
        PlayerStats {
            id,
            blocks_mined: doc.section_sum("minecraft:mined"),
            items_picked_up: doc.section_sum("minecraft:picked_up"),
            items_used: doc.section_sum("minecraft:used"),
            items_crafted: doc.section_sum("minecraft:crafted"),
            mobs_killed: doc.custom("minecraft:mob_kills"),
            deaths: doc.custom("minecraft:deaths"),
            jumps: doc.custom("minecraft:jump"),
            minutes_played: doc.custom("minecraft:play_time") / TICKS_PER_MINUTE,
            damage_taken: doc.custom("minecraft:damage_taken"),
            damage_dealt: doc.custom("minecraft:damage_dealt"),
            advancements_completed: adv.completed(),
            distance_travelled: distance,
        }
    }
}

proof fn lemma_custom_bound(secs: Seq<StatSection>, key: Seq<char>)
    ensures
        custom_value(secs, key) <= u32::MAX,
{
    if let Some(i) = section_index(secs, "minecraft:custom"@, 0) {
        lemma_counter_value_bound(secs[i].counters@, key, 0);
    }
}

} // verus!
