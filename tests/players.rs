use glass_pane::collector::{player_record, roster, stats_file_id, PlayerRecordError, RecordFault};
use glass_pane::player::{
    Advancement, AdvancementsDocument, Counter, PlayerId, PlayerStats, StatSection, StatsDocument,
};
use glass_pane::resolver::ResolutionError;

fn section(name: &str, counters: &[(&str, u32)]) -> StatSection {
    StatSection {
        name: name.to_string(),
        counters: counters
            .iter()
            .map(|(n, v)| Counter { name: n.to_string(), value: *v })
            .collect(),
    }
}

fn advancements(done: &[bool]) -> AdvancementsDocument {
    AdvancementsDocument {
        entries: done
            .iter()
            .enumerate()
            .map(|(i, d)| Advancement { name: format!("minecraft:story/a{}", i), done: *d })
            .collect(),
    }
}

fn id(name: &str) -> PlayerId {
    PlayerId { username: name.to_string(), uuid: 7 }
}

#[test]
fn mined_section_is_summed() {
    let doc = StatsDocument { sections: vec![section("minecraft:mined", &[("minecraft:stone", 10), ("minecraft:dirt", 5)])] };
    assert_eq!(doc.section_sum("minecraft:mined"), 15);
    let p = PlayerStats::from_records(id("a"), &doc, &advancements(&[]));
    assert_eq!(p.blocks_mined, 15);
}

#[test]
fn absent_section_counts_zero() {
    let doc = StatsDocument { sections: vec![] };
    let p = PlayerStats::from_records(id("a"), &doc, &advancements(&[]));
    assert_eq!(p.blocks_mined, 0);
    assert_eq!(p.items_crafted, 0);
    assert_eq!(p.deaths, 0);
    assert_eq!(p.distance_travelled, 0);
}

#[test]
fn section_sum_exceeds_u32() {
    let doc = StatsDocument {
        sections: vec![section("minecraft:used", &[("x", u32::MAX), ("y", u32::MAX), ("z", 2)])],
    };
    assert_eq!(doc.section_sum("minecraft:used"), 2 * (u32::MAX as u64) + 2);
}

#[test]
fn custom_counters_by_exact_key() {
    let doc = StatsDocument {
        sections: vec![
            section("minecraft:picked_up", &[("minecraft:cobblestone", 64)]),
            section("minecraft:crafted", &[("minecraft:torch", 8), ("minecraft:stick", 4)]),
            section(
                "minecraft:custom",
                &[
                    ("minecraft:deaths", 3),
                    ("minecraft:jump", 120),
                    ("minecraft:play_time", 72000),
                    ("minecraft:damage_taken", 40),
                    ("minecraft:damage_dealt", 55),
                    ("minecraft:mob_kills", 9),
                    ("minecraft:walk_one_cm", 1000),
                    ("minecraft:sprint_one_cm", 250),
                    ("minecraft:fly_one_cm", 5),
                    ("minecraft:boat_one_cm", 999),
                ],
            ),
        ],
    };
    assert_eq!(doc.custom("minecraft:deaths"), 3);
    assert_eq!(doc.custom("minecraft:absent"), 0);
    let p = PlayerStats::from_records(id("steve"), &doc, &advancements(&[true, false, true]));
    assert_eq!(p.id.username, "steve");
    assert_eq!(p.items_picked_up, 64);
    assert_eq!(p.items_crafted, 12);
    assert_eq!(p.items_used, 0);
    assert_eq!(p.deaths, 3);
    assert_eq!(p.jumps, 120);
    assert_eq!(p.minutes_played, 60);
    assert_eq!(p.damage_taken, 40);
    assert_eq!(p.damage_dealt, 55);
    assert_eq!(p.mobs_killed, 9);
    assert_eq!(p.distance_travelled, 1255);
    assert_eq!(p.advancements_completed, 2);
}

#[test]
fn completed_advancements_counted() {
    assert_eq!(advancements(&[true, true, false, true]).completed(), 3);
    assert_eq!(advancements(&[]).completed(), 0);
}

#[test]
fn stats_file_names() {
    assert_eq!(
        stats_file_id("069a79f4-44e9-4726-a5be-fca90e38aaf5.json"),
        Some(0x069a79f444e94726a5befca90e38aaf5)
    );
    assert_eq!(
        stats_file_id("069a79f444e94726a5befca90e38aaf5.json"),
        Some(0x069a79f444e94726a5befca90e38aaf5)
    );
    assert_eq!(stats_file_id("069a79f4-44e9-4726-a5be-fca90e38aaf5.dat"), None);
    assert_eq!(stats_file_id(".json"), None);
    assert_eq!(stats_file_id("not-an-id.json"), None);
}

fn good_doc() -> StatsDocument {
    StatsDocument { sections: vec![section("minecraft:mined", &[("minecraft:stone", 1)])] }
}

#[test]
fn player_record_reports_first_failure() {
    let r = player_record(1, "s.json".to_string(), Err(RecordFault::Malformed), "a.json".to_string(), Err(RecordFault::Missing), Ok("n".to_string()));
    assert!(matches!(r, Err(PlayerRecordError { ref file, fault: RecordFault::Malformed }) if file == "s.json"));
    let r = player_record(1, "s.json".to_string(), Ok(good_doc()), "a.json".to_string(), Err(RecordFault::Missing), Ok("n".to_string()));
    assert!(matches!(r, Err(PlayerRecordError { ref file, fault: RecordFault::Missing }) if file == "a.json"));
    let r = player_record(1, "s.json".to_string(), Ok(good_doc()), "a.json".to_string(), Ok(advancements(&[true])), Err(ResolutionError::Request));
    assert!(matches!(r, Err(PlayerRecordError { fault: RecordFault::Resolution(ResolutionError::Request), .. })));
    let r = player_record(1, "s.json".to_string(), Ok(good_doc()), "a.json".to_string(), Ok(advancements(&[true])), Ok("n".to_string())).unwrap();
    assert_eq!(r.id.uuid, 1);
    assert_eq!(r.blocks_mined, 1);
    assert_eq!(r.advancements_completed, 1);
}

#[test]
fn roster_skips_player_with_missing_advancements() {
    let results = vec![
        player_record(1, "1.json".to_string(), Ok(good_doc()), "1a.json".to_string(), Ok(advancements(&[])), Ok("one".to_string())),
        player_record(2, "2.json".to_string(), Ok(good_doc()), "2a.json".to_string(), Err(RecordFault::Missing), Ok("two".to_string())),
        player_record(3, "3.json".to_string(), Ok(good_doc()), "3a.json".to_string(), Ok(advancements(&[true])), Ok("three".to_string())),
    ];
    let players = roster(results);
    assert_eq!(players.len(), 2);
    assert_eq!(players[0].id.username, "one");
    assert_eq!(players[1].id.username, "three");
}

#[test]
fn roster_of_nothing_is_empty() {
    assert!(roster(vec![]).is_empty());
}

#[test]
fn player_id_from_uuid_text() {
    let p = PlayerId::from_uuid_str("069a79f4-44e9-4726-a5be-fca90e38aaf5", "Notch".to_string()).unwrap();
    assert_eq!(p.uuid, 0x069a79f444e94726a5befca90e38aaf5);
    assert_eq!(p.username, "Notch");
    assert!(PlayerId::from_uuid_str("zzz", "x".to_string()).is_none());
}
