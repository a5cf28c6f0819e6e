use sylk_bot::commands::vote::Vote;
use sylk_bot::utils::cloud::index_by_uuid;
use sylk_bot::utils::time::Timestamp;

fn vote(name: &str, msg_id: u64) -> Vote {
    Vote::new(name.to_string(), String::new(), msg_id, 0, 0, 0, Timestamp { secs: 0, nanos: 0 })
}

#[test]
fn objects_are_filed_by_uuid() {
    let hash = index_by_uuid(vec![vote("a", 1), vote("b", 2)]);
    assert_eq!(hash.len(), 2);
    assert_eq!(hash[&1].name(), "a");
    assert_eq!(hash[&2].name(), "b");
}

#[test]
fn the_last_object_with_a_uuid_is_kept() {
    let hash = index_by_uuid(vec![vote("first", 1), vote("other", 2), vote("second", 1)]);
    assert_eq!(hash.len(), 2);
    assert_eq!(hash[&1].name(), "second");
}

#[test]
fn no_objects_give_an_empty_index() {
    assert!(index_by_uuid(Vec::<Vote>::new()).is_empty());
}
