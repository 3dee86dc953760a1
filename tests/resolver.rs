use glass_pane::resolver::{current_name, Lookup, NameRecord, ResolutionError, UsernameCache};

fn rec(name: &str, at: Option<u64>) -> NameRecord {
    NameRecord { name: name.to_string(), changed_to_at: at }
}

#[test]
fn current_name_is_most_recent() {
    let h = vec![rec("first", None), rec("third", Some(300)), rec("second", Some(200))];
    assert_eq!(current_name(&h), Some("third".to_string()));
}

#[test]
fn current_name_without_times_takes_last() {
    let h = vec![rec("a", None), rec("b", None)];
    assert_eq!(current_name(&h), Some("b".to_string()));
    assert_eq!(current_name(&vec![rec("only", None)]), Some("only".to_string()));
}

#[test]
fn current_name_of_empty_history() {
    assert_eq!(current_name(&vec![]), None);
}

#[test]
fn fresh_id_asks_for_fetch() {
    let cache = UsernameCache::new();
    assert_eq!(
        cache.lookup(0x069a79f444e94726a5befca90e38aaf5),
        Lookup::Fetch("https://api.mojang.com/user/profiles/069a79f444e94726a5befca90e38aaf5/names".to_string())
    );
}

#[test]
fn fetched_name_is_cached() {
    let mut cache = UsernameCache::new();
    let id = 42u128;
    assert!(matches!(cache.lookup(id), Lookup::Fetch(_)));
    let r = cache.complete(id, Ok(vec![rec("old", None), rec("new", Some(10))]));
    assert_eq!(r, Ok("new".to_string()));
    assert_eq!(cache.lookup(id), Lookup::Cached("new".to_string()));
    assert_eq!(cache.cached(id), Some("new".to_string()));
    assert_eq!(cache.cached(43), None);
}

#[test]
fn failed_fetch_is_not_cached() {
    let mut cache = UsernameCache::new();
    assert_eq!(cache.complete(5, Err(ResolutionError::Request)), Err(ResolutionError::Request));
    assert_eq!(cache.complete(5, Ok(vec![])), Err(ResolutionError::EmptyHistory));
    assert_eq!(cache.cached(5), None);
    assert!(matches!(cache.lookup(5), Lookup::Fetch(_)));
}

#[test]
fn later_fetch_overwrites_name() {
    let mut cache = UsernameCache::new();
    cache.complete(9, Ok(vec![rec("x", None)])).unwrap();
    cache.complete(9, Ok(vec![rec("y", None)])).unwrap();
    assert_eq!(cache.cached(9), Some("y".to_string()));
}
