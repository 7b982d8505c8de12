use waspedge::cache::{get, init};

#[test]
fn empty_cache_has_nothing() {
    let cache = init();
    assert_eq!(get(&cache, "/"), None);
}

#[test]
fn get_after_set_returns_value() {
    let mut cache = init();
    waspedge::cache::set(&mut cache, "/a".to_string(), vec![1, 2, 3]);
    assert_eq!(get(&cache, "/a"), Some(vec![1, 2, 3]));
    assert_eq!(get(&cache, "/b"), None);
}

#[test]
fn set_replaces_and_leaves_other_keys() {
    let mut cache = init();
    waspedge::cache::set(&mut cache, "/a".to_string(), vec![1]);
    waspedge::cache::set(&mut cache, "/b".to_string(), vec![2]);
    waspedge::cache::set(&mut cache, "/a".to_string(), vec![]);
    assert_eq!(get(&cache, "/a"), Some(vec![]));
    assert_eq!(get(&cache, "/b"), Some(vec![2]));
}

#[test]
fn last_write_wins_over_a_history() {
    let mut cache = init();
    waspedge::cache::set(&mut cache, "/k".to_string(), vec![1]);
    waspedge::cache::set(&mut cache, "/k".to_string(), vec![2]);
    waspedge::cache::set(&mut cache, "/x".to_string(), vec![3]);
    waspedge::cache::set(&mut cache, "/y".to_string(), vec![4]);
    assert_eq!(get(&cache, "/k"), Some(vec![2]));
    assert_eq!(get(&cache, "/never"), None);
    let mut copy = get(&cache, "/k").unwrap();
    copy.push(9);
    assert_eq!(get(&cache, "/k"), Some(vec![2]));
}
