use kakapo::channels::{Channels, Defaults, Sub};
use kakapo::permissions::{contains_permission, Permission, Requirements, WithLoginRequired, WithPermissionRequired};
use kakapo::schema::Table;
use kakapo::script::PyRunner;
use kakapo::api::ApiError;

#[test]
fn permission_constructors() {
    assert_eq!(Permission::has_role("r".to_string()), Permission::HasRole { rolename: "r".to_string() });
    assert_eq!(
        Permission::read_entity::<Table>("t".to_string()),
        Permission::GetEntity { entity_type: "temporary...".to_string(), entity_name: "t".to_string() }
    );
    assert_eq!(Permission::create_entity::<Table>(), Permission::CreateEntity { entity_type: "temporary...".to_string() });
    assert_eq!(
        Permission::modify_entity::<Table>("t".to_string()),
        Permission::ModifyEntity { entity_type: "temporary...".to_string(), entity_name: "t".to_string() }
    );
    assert_eq!(Permission::get_table_data("t".to_string()), Permission::GetTableData { table_name: "t".to_string() });
    assert_eq!(Permission::modify_table_data("t".to_string()), Permission::ModifyTableData { table_name: "t".to_string() });
    assert_eq!(Permission::run_query("q".to_string()), Permission::RunQuery { query_name: "q".to_string() });
    assert_eq!(Permission::run_script("s".to_string()), Permission::RunScript { script_name: "s".to_string() });
    assert_eq!(Permission::user_admin(), Permission::UserAdmin);
    assert_eq!(Permission::user("u".to_string()), Permission::User { username: "u".to_string() });
    assert_eq!(Permission::user_email("e".to_string()), Permission::UserEmail { email: "e".to_string() });
    assert_ne!(Permission::run_query("q".to_string()), Permission::run_script("q".to_string()));
}

#[test]
fn requirements() {
    let a = Permission::run_query("a".to_string());
    let b = Permission::run_query("b".to_string());
    let user = vec![a.clone()];
    assert!(contains_permission(&user, &a));
    assert!(!contains_permission(&user, &b));
    assert!(Requirements::AnyOf(vec![a.clone(), b.clone()]).is_permitted(&user));
    assert!(!Requirements::AllOf(vec![a.clone(), b.clone()]).is_permitted(&user));
    assert!(Requirements::AllOf(vec![]).is_permitted(&vec![]));
    assert!(!Requirements::AnyOf(vec![]).is_permitted(&user));
}

#[test]
fn guarded_actions() {
    let a = Permission::run_query("a".to_string());
    let guarded = WithPermissionRequired::new(7, a.clone());
    assert_eq!(*guarded.action(), 7);
    assert!(guarded.permits(true, &None));
    assert!(!guarded.permits(false, &None));
    assert!(guarded.permits(false, &Some(vec![a.clone()])));
    assert!(!guarded.permits(false, &Some(vec![])));
    let all = WithPermissionRequired::new_all_of(1, vec![a.clone(), Permission::user_admin()]);
    assert!(!all.permits(false, &Some(vec![a.clone()])));
    let any = WithPermissionRequired::new_any_of(1, vec![a.clone(), Permission::user_admin()]);
    assert!(any.permits(false, &Some(vec![Permission::user_admin()])));
    let login = WithLoginRequired::new("x");
    assert_eq!(*login.action(), "x");
    assert!(login.permits(false, &Some(vec![])));
    assert!(!login.permits(false, &None));
    assert!(login.permits(true, &None));
}

#[test]
fn channels_ask_for_read_permissions() {
    let table = Channels::entity::<Table>(&"t".to_string());
    assert_eq!(
        table.required_permission(),
        Permission::GetEntity { entity_type: "temporary...".to_string(), entity_name: "t".to_string() }
    );
    let data = Channels::Defaults(Defaults::TableData("t".to_string()));
    assert_eq!(data.required_permission(), Permission::GetTableData { table_name: "t".to_string() });
    let subs = Channels::Subscribers(Sub::Subscribers(Defaults::Script("s".to_string())));
    assert_eq!(
        subs.required_permission(),
        Permission::GetEntity { entity_type: "temporary...".to_string(), entity_name: "s".to_string() }
    );
}

#[test]
fn python_runner_keeps_its_path() {
    let runner = PyRunner::new("/usr/bin/python3".to_string());
    assert_eq!(runner.get_script_path(), "/usr/bin/python3");
    assert_eq!(runner.clone().get_script_path(), "/usr/bin/python3");
}

#[test]
fn api_error_descriptions() {
    assert_eq!(ApiError::TableNotFound.description(), "Table could not be found");
    assert_eq!(ApiError::DatabaseError("boom".to_string()).description(), "boom");
    assert_eq!(ApiError::UnknownError.description(), "Unknown error");
}

#[test]
fn more_permissions_never_hurt() {
    let a = Permission::run_query("a".to_string());
    let b = Permission::run_query("b".to_string());
    let req = Requirements::AllOf(vec![a.clone()]);
    assert!(req.is_permitted(&vec![a.clone()]));
    assert!(req.is_permitted(&vec![b.clone(), a.clone()]));
    let any = Requirements::AnyOf(vec![b.clone()]);
    assert!(!any.is_permitted(&vec![a.clone()]));
    assert!(any.is_permitted(&vec![a.clone(), b.clone()]));
}
