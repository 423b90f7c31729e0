use kakapo::entity::{
    create_entity_permitted, create_result_from_create, create_result_from_upsert,
    create_uses_upsert, delete_result, filter_readable, get_all_result, get_result, update_result,
    ActionError, CreateEntityResult, Created, DeleteEntityResult, Deleted, EntityError,
    OnNotFound, UpdateEntityResult, Updated, Upserted,
};
use kakapo::permissions::Permission;
use kakapo::table_data::{OnDuplicate, Query};

fn query(name: &str) -> Query {
    Query { name: name.to_string(), description: String::new(), statement: String::new() }
}

#[test]
fn creation_by_upsert() {
    assert!(create_uses_upsert(OnDuplicate::Update));
    assert!(!create_uses_upsert(OnDuplicate::Ignore));
    assert!(!create_uses_upsert(OnDuplicate::Fail));
    assert!(matches!(
        create_result_from_upsert(Ok(Upserted::Update { old: 1, new: 2 })),
        Ok(CreateEntityResult::Updated { old: 1, new: 2 })
    ));
    assert!(matches!(
        create_result_from_upsert(Ok(Upserted::Create { new: 2 })),
        Ok(CreateEntityResult::Created { new: 2 })
    ));
    assert_eq!(
        create_result_from_upsert::<i32>(Err(EntityError::InvalidState)).unwrap_err(),
        ActionError::Entity(EntityError::InvalidState)
    );
}

#[test]
fn creation_of_an_existing_entity() {
    assert!(matches!(
        create_result_from_create(OnDuplicate::Ignore, Ok(Created::Fail { existing: 1 }), 2),
        Ok(CreateEntityResult::AlreadyExists { existing: 1, requested: 2 })
    ));
    assert_eq!(
        create_result_from_create(OnDuplicate::Fail, Ok(Created::Fail { existing: 1 }), 2).unwrap_err(),
        ActionError::AlreadyExists
    );
    assert!(matches!(
        create_result_from_create(OnDuplicate::Fail, Ok(Created::Success { new: 3 }), 2),
        Ok(CreateEntityResult::Created { new: 3 })
    ));
    assert_eq!(
        create_result_from_create::<i32>(OnDuplicate::Ignore, Err(EntityError::NoColumns), 2).unwrap_err(),
        ActionError::Entity(EntityError::NoColumns)
    );
}

#[test]
fn updates_and_deletions() {
    assert!(matches!(
        update_result(OnNotFound::Ignore, "q".to_string(), Ok(Updated::Success { old: 1, new: 2 }), 2),
        Ok(UpdateEntityResult::Updated { id, old: 1, new: 2 }) if id == "q"
    ));
    assert!(matches!(
        update_result(OnNotFound::Ignore, "q".to_string(), Ok(Updated::Fail), 5),
        Ok(UpdateEntityResult::NotFound { id, requested: 5 }) if id == "q"
    ));
    assert_eq!(
        update_result(OnNotFound::Fail, "q".to_string(), Ok(Updated::Fail), 5).unwrap_err(),
        ActionError::NotFound
    );
    assert!(matches!(
        delete_result(OnNotFound::Ignore, "q".to_string(), Ok(Deleted::Success { old: 4 })),
        Ok(DeleteEntityResult::Deleted { id, old: 4 }) if id == "q"
    ));
    assert!(matches!(
        delete_result::<i32>(OnNotFound::Ignore, "q".to_string(), Ok(Deleted::Fail)),
        Ok(DeleteEntityResult::NotFound { id }) if id == "q"
    ));
    assert_eq!(
        delete_result::<i32>(OnNotFound::Fail, "q".to_string(), Ok(Deleted::Fail)).unwrap_err(),
        ActionError::NotFound
    );
    assert_eq!(
        delete_result::<i32>(OnNotFound::Fail, "q".to_string(), Err(EntityError::Unknown)).unwrap_err(),
        ActionError::Entity(EntityError::Unknown)
    );
}

#[test]
fn getting_entities() {
    assert_eq!(get_result(Ok(Some(3))).unwrap().0, 3);
    assert_eq!(get_result::<i32>(Ok(None)).unwrap_err(), ActionError::NotFound);
    assert_eq!(
        get_result::<i32>(Err(EntityError::SerializationError)).unwrap_err(),
        ActionError::Entity(EntityError::SerializationError)
    );
    assert_eq!(get_all_result(Ok(vec![1, 2])).unwrap().0, vec![1, 2]);
}

#[test]
fn listing_keeps_readable_entities() {
    let user = vec![Permission::read_entity::<Query>("b".to_string()), Permission::user_admin()];
    let kept = filter_readable(vec![query("a"), query("b"), query("c"), query("b")], &user);
    let names: Vec<String> = kept.iter().map(|q| q.name.clone()).collect();
    assert_eq!(names, vec!["b".to_string(), "b".to_string()]);
    assert!(filter_readable(vec![query("a")], &vec![]).is_empty());
}

#[test]
fn who_may_create() {
    let create = Permission::create_entity::<Query>();
    let update = Permission::modify_entity::<Query>("q".to_string());
    let all_with_update = vec![update.clone(), create.clone()];
    let all_without = vec![create.clone()];
    assert!(create_entity_permitted(OnDuplicate::Update, &create, &update, &vec![update.clone()], &all_with_update));
    assert!(!create_entity_permitted(OnDuplicate::Update, &create, &update, &vec![create.clone()], &all_with_update));
    assert!(create_entity_permitted(OnDuplicate::Update, &create, &update, &vec![create.clone()], &all_without));
    assert!(create_entity_permitted(OnDuplicate::Ignore, &create, &update, &vec![create.clone()], &all_with_update));
    assert!(!create_entity_permitted(OnDuplicate::Fail, &create, &update, &vec![update.clone()], &all_with_update));
}
