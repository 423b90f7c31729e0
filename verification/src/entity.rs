use vstd::prelude::*;
use crate::permissions::{contains_permission, entity_type_placeholder, holds, Permission};
use crate::schema::Table;
use crate::table_data::{OnDuplicate, Query, Script};

verus! {

/// What an upsert did: replaced an entity or created it.
#[derive(Debug)]
pub enum Upserted<T> {
    Update { old: T, new: T },
    Create { new: T },
}

/// What a creation did: created the entity, or found one of that name.
#[derive(Debug)]
pub enum Created<T> {
    Success { new: T },
    Fail { existing: T },
}

/// What an update did: replaced the entity, or found none of that name.
#[derive(Debug)]
pub enum Updated<T> {
    Success { old: T, new: T },
    Fail,
}

/// What a deletion did: removed the entity, or found none of that name.
#[derive(Debug)]
pub enum Deleted<T> {
    Success { old: T },
    Fail,
}

/// The work that follows a change of the store: the hooks of a creation,
/// of an update or of a deletion, or none.
#[derive(Clone, Copy, Debug, PartialEq, Eq, Structural)]
pub enum FollowUp {
    Create,
    Update,
    Delete,
    Nothing,
}

impl<T> Upserted<T> {
    /// An update calls for the update hooks, a creation for the creation
    /// hooks.
    pub fn follow_up(&self) -> (r: FollowUp)
        ensures
            r == match *self {
                Upserted::Update { .. } => FollowUp::Update,
                Upserted::Create { .. } => FollowUp::Create,
            },
    {
        match self {
            Upserted::Update { .. } => FollowUp::Update,
            Upserted::Create { .. } => FollowUp::Create,
        }
    }
}

impl<T> Created<T> {
    /// A creation calls for the creation hooks; finding an existing entity
    /// calls for nothing.
    pub fn follow_up(&self) -> (r: FollowUp)
        ensures
            r == match *self {
                Created::Success { .. } => FollowUp::Create,
                Created::Fail { .. } => FollowUp::Nothing,
            },
    {
        match self {
            Created::Success { .. } => FollowUp::Create,
            Created::Fail { .. } => FollowUp::Nothing,
        }
    }
}

impl<T> Updated<T> {
    /// An update calls for the update hooks; a missing entity for nothing.
    pub fn follow_up(&self) -> (r: FollowUp)
        ensures
            r == match *self {
                Updated::Success { .. } => FollowUp::Update,
                Updated::Fail => FollowUp::Nothing,
            },
    {
        match self {
            Updated::Success { .. } => FollowUp::Update,
            Updated::Fail => FollowUp::Nothing,
        }
    }
}

impl<T> Deleted<T> {
    /// A deletion calls for the deletion hooks; a missing entity for
    /// nothing.
    pub fn follow_up(&self) -> (r: FollowUp)
        ensures
            r == match *self {
                Deleted::Success { .. } => FollowUp::Delete,
                Deleted::Fail => FollowUp::Nothing,
            },
    {
        match self {
            Deleted::Success { .. } => FollowUp::Delete,
            Deleted::Fail => FollowUp::Nothing,
        }
    }
}

/// Why the entity store failed.
#[derive(Debug, PartialEq, Eq)]
pub enum EntityError {
    InternalError(String),
    DeserializationError,
    SerializationError,
    FileSystemError(String),
    InvalidState,
    NoColumns,
    Unknown,
}

/// What to do when the entity to change does not exist.
#[derive(Clone, Copy, Debug, PartialEq, Eq, Structural)]
pub enum OnNotFound {
    Ignore,
    Fail,
}

/// Why an action failed.
#[derive(Debug, PartialEq, Eq)]
pub enum ActionError {
    Entity(EntityError),
    Unauthorized,
    NotFound,
    AlreadyExists,
    SerializationError(String),
    Unknown,
}

/// Every entity listed.
#[derive(Debug)]
pub struct GetAllEntitiesResult<T>(pub Vec<T>);

/// One entity.
#[derive(Debug)]
pub struct GetEntityResult<T>(pub T);

/// What a creation request led to.
#[derive(Debug)]
pub enum CreateEntityResult<T> {
    Updated { old: T, new: T },
    Created { new: T },
    AlreadyExists { existing: T, requested: T },
}

/// What an update request led to.
#[derive(Debug)]
pub enum UpdateEntityResult<T> {
    Updated { id: String, old: T, new: T },
    NotFound { id: String, requested: T },
}

/// What a deletion request led to.
#[derive(Debug)]
pub enum DeleteEntityResult<T> {
    Deleted { id: String, old: T },
    NotFound { id: String },
}

/// Whether a creation request goes to the store as an upsert (when
/// duplicates are updated) rather than as a creation.
pub fn create_uses_upsert(on_duplicate: OnDuplicate) -> (r: bool)
    ensures
        r == (on_duplicate == OnDuplicate::Update),
{
    match on_duplicate {
        OnDuplicate::Update => true,
        _ => false,
    }
}

/// The answer to a creation request that the store carried out as an
/// upsert.
pub fn create_result_from_upsert<T>(res: Result<Upserted<T>, EntityError>) -> (r: Result<
    CreateEntityResult<T>,
    ActionError,
>)
    ensures
        match res {
            Ok(Upserted::Update { old, new }) => r == Ok::<_, ActionError>(
                CreateEntityResult::Updated { old, new },
            ),
            Ok(Upserted::Create { new }) => r == Ok::<_, ActionError>(CreateEntityResult::Created { new }),
            Err(e) => r == Err::<CreateEntityResult<T>, _>(ActionError::Entity(e)),
        },
{
    match res {
        Ok(Upserted::Update { old, new }) => Ok(CreateEntityResult::Updated { old, new }),
        Ok(Upserted::Create { new }) => Ok(CreateEntityResult::Created { new }),
        Err(e) => Err(ActionError::Entity(e)),
    }
}

/// The answer to a creation request that the store carried out as a
/// creation: an entity of the same name is reported when duplicates are
/// ignored and refused when they fail.
pub fn create_result_from_create<T>(
    on_duplicate: OnDuplicate,
    res: Result<Created<T>, EntityError>,
    requested: T,
) -> (r: Result<CreateEntityResult<T>, ActionError>)
    ensures
        match res {
            Ok(Created::Success { new }) => r == Ok::<_, ActionError>(CreateEntityResult::Created { new }),
            Ok(Created::Fail { existing }) => if on_duplicate == OnDuplicate::Fail {
                r == Err::<CreateEntityResult<T>, _>(ActionError::AlreadyExists)
            } else {
                r == Ok::<_, ActionError>(CreateEntityResult::AlreadyExists { existing, requested })
            },
            Err(e) => r == Err::<CreateEntityResult<T>, _>(ActionError::Entity(e)),
        },
{
    match res {
        Ok(Created::Success { new }) => Ok(CreateEntityResult::Created { new }),
        Ok(Created::Fail { existing }) => match on_duplicate {
            OnDuplicate::Fail => Err(ActionError::AlreadyExists),
            _ => Ok(CreateEntityResult::AlreadyExists { existing, requested }),
        },
        Err(e) => Err(ActionError::Entity(e)),
    }
}

/// The answer to an update request of the entity `id`: a missing entity is
/// reported when it is ignored and refused when it fails.
pub fn update_result<T>(
    on_not_found: OnNotFound,
    id: String,
    res: Result<Updated<T>, EntityError>,
    requested: T,
) -> (r: Result<UpdateEntityResult<T>, ActionError>)
    ensures
        match res {
            Ok(Updated::Success { old, new }) => r == Ok::<_, ActionError>(
                UpdateEntityResult::Updated { id, old, new },
            ),
            Ok(Updated::Fail) => if on_not_found == OnNotFound::Fail {
                r == Err::<UpdateEntityResult<T>, _>(ActionError::NotFound)
            } else {
                r == Ok::<_, ActionError>(UpdateEntityResult::NotFound { id, requested })
            },
            Err(e) => r == Err::<UpdateEntityResult<T>, _>(ActionError::Entity(e)),
        },
{
    match res {
        Ok(Updated::Success { old, new }) => Ok(UpdateEntityResult::Updated { id, old, new }),
        Ok(Updated::Fail) => match on_not_found {
            OnNotFound::Fail => Err(ActionError::NotFound),
            OnNotFound::Ignore => Ok(UpdateEntityResult::NotFound { id, requested }),
        },
        Err(e) => Err(ActionError::Entity(e)),
    }
}

/// The answer to a deletion request of the entity `id`: a missing entity
/// is reported when it is ignored and refused when it fails.
pub fn delete_result<T>(on_not_found: OnNotFound, id: String, res: Result<Deleted<T>, EntityError>) -> (r:
    Result<DeleteEntityResult<T>, ActionError>)
    ensures
        match res {
            Ok(Deleted::Success { old }) => r == Ok::<_, ActionError>(DeleteEntityResult::Deleted { id, old }),
            Ok(Deleted::Fail) => if on_not_found == OnNotFound::Fail {
                r == Err::<DeleteEntityResult<T>, _>(ActionError::NotFound)
            } else {
                r == Ok::<_, ActionError>(DeleteEntityResult::<T>::NotFound { id })
            },
            Err(e) => r == Err::<DeleteEntityResult<T>, _>(ActionError::Entity(e)),
        },
{
    match res {
        Ok(Deleted::Success { old }) => Ok(DeleteEntityResult::Deleted { id, old }),
        Ok(Deleted::Fail) => match on_not_found {
            OnNotFound::Fail => Err(ActionError::NotFound),
            OnNotFound::Ignore => Ok(DeleteEntityResult::NotFound { id }),
        },
        Err(e) => Err(ActionError::Entity(e)),
    }
}

/// The answer to a request for one entity: a missing one is not found.
pub fn get_result<T>(res: Result<Option<T>, EntityError>) -> (r: Result<GetEntityResult<T>, ActionError>)
    ensures
        match res {
            Ok(Some(x)) => r == Ok::<_, ActionError>(GetEntityResult(x)),
            Ok(None) => r == Err::<GetEntityResult<T>, _>(ActionError::NotFound),
            Err(e) => r == Err::<GetEntityResult<T>, _>(ActionError::Entity(e)),
        },
{
    match res {
        Ok(Some(x)) => Ok(GetEntityResult(x)),
        Ok(None) => Err(ActionError::NotFound),
        Err(e) => Err(ActionError::Entity(e)),
    }
}

/// The answer to a request for every entity.
pub fn get_all_result<T>(res: Result<Vec<T>, EntityError>) -> (r: Result<GetAllEntitiesResult<T>, ActionError>)
    ensures
        match res {
            Ok(xs) => r == Ok::<_, ActionError>(GetAllEntitiesResult(xs)),
            Err(e) => r == Err::<GetAllEntitiesResult<T>, _>(ActionError::Entity(e)),
        },
{
    match res {
        Ok(xs) => Ok(GetAllEntitiesResult(xs)),
        Err(e) => Err(ActionError::Entity(e)),
    }
}

/// Whether a caller with `user_permissions` may create an entity. When
/// duplicates are updated and the modify permission of the entity exists
/// among `all_permissions`, the entity exists already: the caller needs
/// that permission. Otherwise the caller needs the create permission.
pub fn create_entity_permitted(
    on_duplicate: OnDuplicate,
    create_permission: &Permission,
    update_permission: &Permission,
    user_permissions: &Vec<Permission>,
    all_permissions: &Vec<Permission>,
) -> (r: bool)
    ensures
        r == if on_duplicate == OnDuplicate::Update && holds(all_permissions@, *update_permission) {
            holds(user_permissions@, *update_permission)
        } else {
            holds(user_permissions@, *create_permission)
        },
{
    match on_duplicate {
        OnDuplicate::Update => if contains_permission(all_permissions, update_permission) {
            contains_permission(user_permissions, update_permission)
        } else {
            contains_permission(user_permissions, create_permission)
        },
        _ => contains_permission(user_permissions, create_permission),
    }
}

/// An entity known by a name.
pub trait Named {
    spec fn name_of(&self) -> Seq<char>;

    fn my_name(&self) -> (r: &String)
        ensures
            r@ == self.name_of(),
    ;
}

impl Named for Table {
    open spec fn name_of(&self) -> Seq<char> {
        self.name@
    }

    fn my_name(&self) -> (r: &String) {
        &self.name
    }
}

impl Named for Query {
    open spec fn name_of(&self) -> Seq<char> {
        self.name@
    }

    fn my_name(&self) -> (r: &String) {
        &self.name
    }
}

impl Named for Script {
    open spec fn name_of(&self) -> Seq<char> {
        self.name@
    }

    fn my_name(&self) -> (r: &String) {
        &self.name
    }
}

/// `user_permissions` grants reading the entity called `name`.
pub open spec fn grants_read(user_permissions: Seq<Permission>, name: Seq<char>) -> bool {
    exists|i: int|
        0 <= i < user_permissions.len() && (#[trigger] user_permissions[i] matches Permission::GetEntity {
            entity_type,
            entity_name,
        } && entity_type@ == entity_type_placeholder() && entity_name@ == name)
}

/// The entities whose read permission `user_permissions` grants, in order.
pub open spec fn readable<T: Named>(items: Seq<T>, user_permissions: Seq<Permission>) -> Seq<T> {
    items.filter(|x: T| grants_read(user_permissions, x.name_of()))
}

/// Keeps, in order, the entities that the caller may read.
pub fn filter_readable<T: Named>(items: Vec<T>, user_permissions: &Vec<Permission>) -> (r: Vec<T>)
    ensures
        r@ == readable(items@, user_permissions@),
{
    let ghost all = items@;
    let ghost pred = |x: T| grants_read(user_permissions@, x.name_of());
    let mut rest = items;
    let n = rest.len();
    let mut kept: Vec<T> = Vec::new();
    let mut i: usize = 0;
    assert(all.skip(0) =~= all);
    assert(all.take(0).filter(pred) =~= Seq::<T>::empty()) by {
        reveal(Seq::filter);
    }
    while rest.len() > 0
        invariant
            i <= all.len(),
            all.len() == n,
            rest@ == all.skip(i as int),
            kept@ == all.take(i as int).filter(pred),
            pred == (|x: T| grants_read(user_permissions@, x.name_of())),
        decreases rest.len(),
    {
        let x = rest.remove(0);
        proof {
            reveal(Seq::filter);
            assert(all.take(i + 1).drop_last() =~= all.take(i as int));
            assert(all.take(i + 1).last() == all[i as int]);
            assert(rest@ =~= all.skip(i + 1));
        }
        let required = Permission::read_entity::<T>(x.my_name().clone());
        let allowed = contains_permission(user_permissions, &required);
        proof {
            if allowed {
                let j = choose|j: int| 0 <= j < user_permissions@.len() && #[trigger] user_permissions@[j].same(required);
                assert(user_permissions@[j] matches Permission::GetEntity { entity_type, entity_name } && entity_type@
                    == entity_type_placeholder() && entity_name@ == x.name_of());
            } else {
                if grants_read(user_permissions@, x.name_of()) {
                    let j = choose|j: int|
                        0 <= j < user_permissions@.len() && (#[trigger] user_permissions@[j] matches Permission::GetEntity {
                            entity_type,
                            entity_name,
                        } && entity_type@ == entity_type_placeholder() && entity_name@ == x.name_of());
                    assert(user_permissions@[j].same(required));
                }
            }
        }
        if allowed {
            kept.push(x);
        }
        i = i + 1;
    }
    assert(all.take(i as int) =~= all);
    kept
}

} // verus!
