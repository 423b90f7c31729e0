use vstd::prelude::*;
use vstd::std_specs::cmp::PartialEqSpecImpl;

verus! {

/// The type name that the entity permissions carry for now.
pub open spec fn entity_type_placeholder() -> Seq<char> {
    "temporary..."@
}

/// A right that a user can hold, through one of the roles attached to them.
#[derive(Debug, Eq, Hash)]
pub enum Permission {
    HasRole { rolename: String },
    GetEntity { entity_type: String, entity_name: String },
    CreateEntity { entity_type: String },
    ModifyEntity { entity_type: String, entity_name: String },
    GetTableData { table_name: String },
    ModifyTableData { table_name: String },
    RunQuery { query_name: String },
    RunScript { script_name: String },
    /// manage the user: detach roles, change the password
    User { username: String },
    UserEmail { email: String },
    /// add or remove users, add roles the user holds, and add permissions
    /// to a role the user holds
    UserAdmin,
}

impl Permission {
    /// Two permissions name the same right: same variant, same texts.
    pub open spec fn same(self, other: Permission) -> bool {
        match (self, other) {
            (Permission::HasRole { rolename: a }, Permission::HasRole { rolename: b }) => a@ == b@,
            (
                Permission::GetEntity { entity_type: t1, entity_name: e1 },
                Permission::GetEntity { entity_type: t2, entity_name: e2 },
            ) => t1@ == t2@ && e1@ == e2@,
            (Permission::CreateEntity { entity_type: a }, Permission::CreateEntity { entity_type: b }) => a@
                == b@,
            (
                Permission::ModifyEntity { entity_type: t1, entity_name: e1 },
                Permission::ModifyEntity { entity_type: t2, entity_name: e2 },
            ) => t1@ == t2@ && e1@ == e2@,
            (Permission::GetTableData { table_name: a }, Permission::GetTableData { table_name: b }) => a@
                == b@,
            (
                Permission::ModifyTableData { table_name: a },
                Permission::ModifyTableData { table_name: b },
            ) => a@ == b@,
            (Permission::RunQuery { query_name: a }, Permission::RunQuery { query_name: b }) => a@ == b@,
            (Permission::RunScript { script_name: a }, Permission::RunScript { script_name: b }) => a@
                == b@,
            (Permission::User { username: a }, Permission::User { username: b }) => a@ == b@,
            (Permission::UserEmail { email: a }, Permission::UserEmail { email: b }) => a@ == b@,
            (Permission::UserAdmin, Permission::UserAdmin) => true,
            _ => false,
        }
    }

    pub fn has_role(name: String) -> (r: Self)
        ensures
            r == (Permission::HasRole { rolename: name }),
    {
        Permission::HasRole { rolename: name }
    }

    pub fn read_entity<T>(name: String) -> (r: Self)
        ensures
            r matches Permission::GetEntity { entity_type, entity_name } && entity_type@
                == entity_type_placeholder() && entity_name == name,
    {
        Permission::GetEntity { entity_type: String::from_str("temporary..."), entity_name: name }
    }

    pub fn create_entity<T>() -> (r: Self)
        ensures
            r matches Permission::CreateEntity { entity_type } && entity_type@
                == entity_type_placeholder(),
    {
        Permission::CreateEntity { entity_type: String::from_str("temporary...") }
    }

    pub fn modify_entity<T>(name: String) -> (r: Self)
        ensures
            r matches Permission::ModifyEntity { entity_type, entity_name } && entity_type@
                == entity_type_placeholder() && entity_name == name,
    {
        Permission::ModifyEntity { entity_type: String::from_str("temporary..."), entity_name: name }
    }

    pub fn get_table_data(name: String) -> (r: Self)
        ensures
            r == (Permission::GetTableData { table_name: name }),
    {
        Permission::GetTableData { table_name: name }
    }

    pub fn modify_table_data(name: String) -> (r: Self)
        ensures
            r == (Permission::ModifyTableData { table_name: name }),
    {
        Permission::ModifyTableData { table_name: name }
    }

    pub fn run_query(name: String) -> (r: Self)
        ensures
            r == (Permission::RunQuery { query_name: name }),
    {
        Permission::RunQuery { query_name: name }
    }

    pub fn run_script(name: String) -> (r: Self)
        ensures
            r == (Permission::RunScript { script_name: name }),
    {
        Permission::RunScript { script_name: name }
    }

    pub fn user_admin() -> (r: Self)
        ensures
            r == Permission::UserAdmin,
    {
        Permission::UserAdmin
    }

    pub fn user(username: String) -> (r: Self)
        ensures
            r == (Permission::User { username }),
    {
        Permission::User { username }
    }

    pub fn user_email(email: String) -> (r: Self)
        ensures
            r == (Permission::UserEmail { email }),
    {
        Permission::UserEmail { email }
    }
}

impl Clone for Permission {
    fn clone(&self) -> (r: Self)
        ensures
            r == *self,
    {
        match self {
            Permission::HasRole { rolename } => Permission::HasRole { rolename: rolename.clone() },
            Permission::GetEntity { entity_type, entity_name } => Permission::GetEntity {
                entity_type: entity_type.clone(),
                entity_name: entity_name.clone(),
            },
            Permission::CreateEntity { entity_type } => Permission::CreateEntity {
                entity_type: entity_type.clone(),
            },
            Permission::ModifyEntity { entity_type, entity_name } => Permission::ModifyEntity {
                entity_type: entity_type.clone(),
                entity_name: entity_name.clone(),
            },
            Permission::GetTableData { table_name } => Permission::GetTableData {
                table_name: table_name.clone(),
            },
            Permission::ModifyTableData { table_name } => Permission::ModifyTableData {
                table_name: table_name.clone(),
            },
            Permission::RunQuery { query_name } => Permission::RunQuery {
                query_name: query_name.clone(),
            },
            Permission::RunScript { script_name } => Permission::RunScript {
                script_name: script_name.clone(),
            },
            Permission::User { username } => Permission::User { username: username.clone() },
            Permission::UserEmail { email } => Permission::UserEmail { email: email.clone() },
            Permission::UserAdmin => Permission::UserAdmin,
        }
    }
}

impl PartialEq for Permission {
    fn eq(&self, other: &Self) -> (r: bool) {
        match self {
            Permission::HasRole { rolename: a } => match other {
                Permission::HasRole { rolename: b } => *a == *b,
                _ => false,
            },
            Permission::GetEntity { entity_type: t1, entity_name: e1 } => match other {
                Permission::GetEntity { entity_type: t2, entity_name: e2 } => *t1 == *t2 && *e1 == *e2,
                _ => false,
            },
            Permission::CreateEntity { entity_type: a } => match other {
                Permission::CreateEntity { entity_type: b } => *a == *b,
                _ => false,
            },
            Permission::ModifyEntity { entity_type: t1, entity_name: e1 } => match other {
                Permission::ModifyEntity { entity_type: t2, entity_name: e2 } => *t1 == *t2 && *e1 == *e2,
                _ => false,
            },
            Permission::GetTableData { table_name: a } => match other {
                Permission::GetTableData { table_name: b } => *a == *b,
                _ => false,
            },
            Permission::ModifyTableData { table_name: a } => match other {
                Permission::ModifyTableData { table_name: b } => *a == *b,
                _ => false,
            },
            Permission::RunQuery { query_name: a } => match other {
                Permission::RunQuery { query_name: b } => *a == *b,
                _ => false,
            },
            Permission::RunScript { script_name: a } => match other {
                Permission::RunScript { script_name: b } => *a == *b,
                _ => false,
            },
            Permission::User { username: a } => match other {
                Permission::User { username: b } => *a == *b,
                _ => false,
            },
            Permission::UserEmail { email: a } => match other {
                Permission::UserEmail { email: b } => *a == *b,
                _ => false,
            },
            Permission::UserAdmin => match other {
                Permission::UserAdmin => true,
                _ => false,
            },
        }
    }
}

impl PartialEqSpecImpl for Permission {
    open spec fn obeys_eq_spec() -> bool {
        true
    }

    open spec fn eq_spec(&self, other: &Self) -> bool {
        self.same(*other)
    }
}


/// `perms` grants `p`: some permission in it names the same right.
pub open spec fn holds(perms: Seq<Permission>, p: Permission) -> bool {
    exists|i: int| 0 <= i < perms.len() && #[trigger] perms[i].same(p)
}

/// Whether the permission list `perms` grants `p`.
pub fn contains_permission(perms: &Vec<Permission>, p: &Permission) -> (r: bool)
    ensures
        r == holds(perms@, *p),
{
    let mut i: usize = 0;
    while i < perms.len()
        invariant
            i <= perms.len(),
            forall|j: int| 0 <= j < i ==> !(#[trigger] perms@[j]).same(*p),
        decreases perms.len() - i,
    {
        if perms[i] == *p {
            return true;
        }
        i = i + 1;
    }
    false
}

/// What an action asks of the permissions of the user that calls it.
#[derive(Debug)]
pub enum Requirements {
    AllOf(Vec<Permission>),
    AnyOf(Vec<Permission>),
}

impl Requirements {
    pub open spec fn permits(self, user: Seq<Permission>) -> bool {
        match self {
            Requirements::AllOf(required) => forall|j: int|
                0 <= j < required.len() ==> holds(user, #[trigger] required@[j]),
            Requirements::AnyOf(required) => exists|j: int|
                0 <= j < required.len() && holds(user, #[trigger] required@[j]),
        }
    }

    pub fn is_permitted(&self, user_permissions: &Vec<Permission>) -> (r: bool)
        ensures
            r == self.permits(user_permissions@),
    {
        match self {
            Requirements::AllOf(required_permissions) => {
                let mut is_permitted = true;
                let mut i: usize = 0;
                while i < required_permissions.len()
                    invariant
                        i <= required_permissions.len(),
                        is_permitted == (forall|j: int|
                            0 <= j < i ==> holds(user_permissions@, #[trigger] required_permissions@[j])),
                    decreases required_permissions.len() - i,
                {
                    if !contains_permission(user_permissions, &required_permissions[i]) {
                        is_permitted = false;
                    }
                    i = i + 1;
                }
                is_permitted
            },
            Requirements::AnyOf(required_permissions) => {
                let mut is_permitted = false;
                let mut i: usize = 0;
                while i < required_permissions.len()
                    invariant
                        i <= required_permissions.len(),
                        is_permitted == (exists|j: int|
                            0 <= j < i && holds(user_permissions@, #[trigger] required_permissions@[j])),
                    decreases required_permissions.len() - i,
                {
                    if contains_permission(user_permissions, &required_permissions[i]) {
                        is_permitted = true;
                    }
                    i = i + 1;
                }
                is_permitted
            },
        }
    }
}

/// More permissions never take a right away: when every right that
/// `fewer` grants is also granted by `more`, any requirements that `fewer`
/// meets are met by `more`.
pub proof fn law_requirements_monotone(
    req: Requirements,
    fewer: Seq<Permission>,
    more: Seq<Permission>,
)
    requires
        forall|p: Permission| holds(fewer, p) ==> holds(more, p),
    ensures
        req.permits(fewer) ==> req.permits(more),
{
    match req {
        Requirements::AllOf(required) => {
            assert forall|j: int| 0 <= j < required.len() && req.permits(fewer) implies holds(
                more,
                #[trigger] required@[j],
            ) by {
                assert(holds(fewer, required@[j]));
            }
        },
        Requirements::AnyOf(required) => {
            if req.permits(fewer) {
                let j = choose|j: int| 0 <= j < required.len() && holds(fewer, #[trigger] required@[j]);
                assert(holds(more, required@[j]));
            }
        },
    }
}

/// The permissions of a caller, or none when nobody is logged in.
pub open spec fn granted(user_permissions: Option<Vec<Permission>>) -> Seq<Permission> {
    match user_permissions {
        Some(p) => p@,
        None => Seq::empty(),
    }
}

/// An action that runs only for an administrator or for a caller whose
/// permissions meet its requirements.
#[derive(Debug)]
pub struct WithPermissionRequired<A> {
    action: A,
    permissions: Requirements,
}

impl<A> WithPermissionRequired<A> {
    pub closed spec fn inner(self) -> A {
        self.action
    }

    pub closed spec fn requirements(self) -> Requirements {
        self.permissions
    }

    pub fn new(action: A, permission: Permission) -> (r: Self)
        ensures
            r.inner() == action,
            r.requirements() matches Requirements::AnyOf(req) && req@ == seq![permission],
    {
        let mut required = Vec::new();
        required.push(permission);
        Self { action, permissions: Requirements::AnyOf(required) }
    }

    pub fn new_any_of(action: A, permissions: Vec<Permission>) -> (r: Self)
        ensures
            r.inner() == action,
            r.requirements() == Requirements::AnyOf(permissions),
    {
        Self { action, permissions: Requirements::AnyOf(permissions) }
    }

    pub fn new_all_of(action: A, permissions: Vec<Permission>) -> (r: Self)
        ensures
            r.inner() == action,
            r.requirements() == Requirements::AllOf(permissions),
    {
        Self { action, permissions: Requirements::AllOf(permissions) }
    }

    pub fn action(&self) -> (r: &A)
        ensures
            *r == self.inner(),
    {
        &self.action
    }

    /// Whether the wrapped action may run: always for an administrator,
    /// otherwise when the caller's permissions (none when logged out) meet
    /// the requirements.
    pub fn permits(&self, is_admin: bool, user_permissions: &Option<Vec<Permission>>) -> (r: bool)
        ensures
            r == (is_admin || self.requirements().permits(granted(*user_permissions))),
    {
        if is_admin {
            return true;
        }
        match user_permissions {
            Some(perms) => self.permissions.is_permitted(perms),
            None => {
                let empty: Vec<Permission> = Vec::new();
                self.permissions.is_permitted(&empty)
            },
        }
    }
}

/// An action that runs only for an administrator or a logged-in caller.
#[derive(Debug)]
pub struct WithLoginRequired<A> {
    action: A,
}

impl<A> WithLoginRequired<A> {
    pub closed spec fn inner(self) -> A {
        self.action
    }

    pub fn new(action: A) -> (r: Self)
        ensures
            r.inner() == action,
    {
        Self { action }
    }

    pub fn action(&self) -> (r: &A)
        ensures
            *r == self.inner(),
    {
        &self.action
    }

    pub fn permits(&self, is_admin: bool, user_permissions: &Option<Vec<Permission>>) -> (r: bool)
        ensures
            r == (is_admin || user_permissions is Some),
    {
        is_admin || user_permissions.is_some()
    }
}

} // verus!
