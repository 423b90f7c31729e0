use kakapo::dbdata::{ConvertRaw, RawQuery, RawScript};
use kakapo::entity::{Created, Deleted, FollowUp, Updated, Upserted};
use kakapo::schema::Timestamp;
use kakapo::table_data::{Query, Script};

#[test]
fn stored_versions_convert_to_entities() {
    let raw = RawQuery {
        query_id: 1,
        entity_id: 2,
        name: "q".to_string(),
        description: "d".to_string(),
        statement: "SELECT 1".to_string(),
        query_info: "{}".to_string(),
        is_deleted: false,
        modified_at: Timestamp { secs: 0, nanos: 0 },
        modified_by: 3,
    };
    let q = Query::convert(&raw);
    assert_eq!((q.name.as_str(), q.description.as_str(), q.statement.as_str()), ("q", "d", "SELECT 1"));
    let raw = RawScript {
        script_id: 1,
        entity_id: 2,
        name: "s".to_string(),
        description: "d".to_string(),
        script_language: "Python".to_string(),
        script_text: "print(1)".to_string(),
        script_info: "{}".to_string(),
        is_deleted: false,
        modified_at: Timestamp { secs: 0, nanos: 0 },
        modified_by: 3,
    };
    let s = Script::convert(&raw);
    assert_eq!((s.name.as_str(), s.text.as_str()), ("s", "print(1)"));
}

#[test]
fn new_versions_and_tombstones() {
    let q = Query { name: "q".to_string(), description: "d".to_string(), statement: "SELECT 1".to_string() };
    let n = q.new_raw(5, 6);
    assert_eq!((n.entity_id, n.modified_by, n.is_deleted), (5, 6, false));
    assert_eq!((n.name.as_str(), n.statement.as_str(), n.query_info.as_str()), ("q", "SELECT 1", "{}"));
    let t = Query::tombstone("q".to_string(), 5, 6);
    assert!(t.is_deleted);
    assert_eq!((t.name.as_str(), t.description.as_str(), t.statement.as_str()), ("q", "", ""));
    let s = Script { name: "s".to_string(), description: "d".to_string(), text: "x".to_string() };
    let n = s.new_raw(5, 6);
    assert_eq!((n.script_language.as_str(), n.script_text.as_str(), n.is_deleted), ("Python", "x", false));
    let t = Script::tombstone("s".to_string(), 5, 6);
    assert!(t.is_deleted);
    assert_eq!((t.script_language.as_str(), t.script_text.as_str(), t.script_info.as_str()), ("Python", "", "{}"));
}

#[test]
fn store_changes_call_for_their_hooks() {
    assert_eq!(Upserted::Update { old: 1, new: 2 }.follow_up(), FollowUp::Update);
    assert_eq!(Upserted::Create { new: 2 }.follow_up(), FollowUp::Create);
    assert_eq!(Created::Success { new: 1 }.follow_up(), FollowUp::Create);
    assert_eq!(Created::Fail { existing: 1 }.follow_up(), FollowUp::Nothing);
    assert_eq!(Updated::Success { old: 1, new: 2 }.follow_up(), FollowUp::Update);
    assert_eq!(Updated::<i32>::Fail.follow_up(), FollowUp::Nothing);
    assert_eq!(Deleted::Success { old: 1 }.follow_up(), FollowUp::Delete);
    assert_eq!(Deleted::<i32>::Fail.follow_up(), FollowUp::Nothing);
}
