//! Who a client is, and what it may do.

use vstd::prelude::*;

use crate::text;

verus! {

/// The number of a tenant.
#[derive(Debug, Clone, Copy, PartialEq, Eq, Structural)]
pub struct TenantId(pub u64);

impl TenantId {
    pub fn new(id: u64) -> (r: Self)
        ensures
            r == TenantId(id),
    {
        TenantId(id)
    }

    pub fn as_u64(self) -> (r: u64)
        ensures
            r == self.0,
    {
        self.0
    }
}

/// The number of a database.
#[derive(Debug, Clone, Copy, PartialEq, Eq, Structural)]
pub struct DatabaseId(pub u64);

impl DatabaseId {
    pub fn new(id: u64) -> (r: Self)
        ensures
            r == DatabaseId(id),
    {
        DatabaseId(id)
    }

    pub fn as_u64(self) -> (r: u64)
        ensures
            r == self.0,
    {
        self.0
    }
}

/// How an identity was established.
#[derive(Debug, Clone, Copy, PartialEq, Eq, Structural)]
pub enum AuthMethod {
    Trust,
    Password,
    ScramSha256,
    ApiKey,
    Jwt,
    Certificate,
}

/// A role. A name that is none of the built-in ones is a custom role, which confers nothing until
/// something is granted to it.
#[derive(Debug, Clone)]
pub enum Role {
    TenantAdmin,
    ReadWrite,
    ReadOnly,
    Monitor,
    DatabaseOwner(DatabaseId),
    DatabaseEditor(DatabaseId),
    DatabaseReader(DatabaseId),
    Custom(String),
}

/// What a role is, apart from how its name is stored.
pub enum RoleView {
    TenantAdmin,
    ReadWrite,
    ReadOnly,
    Monitor,
    DatabaseOwner(DatabaseId),
    DatabaseEditor(DatabaseId),
    DatabaseReader(DatabaseId),
    Custom(Seq<char>),
}

impl View for Role {
    type V = RoleView;

    open spec fn view(&self) -> RoleView {
        match self {
            Role::TenantAdmin => RoleView::TenantAdmin,
            Role::ReadWrite => RoleView::ReadWrite,
            Role::ReadOnly => RoleView::ReadOnly,
            Role::Monitor => RoleView::Monitor,
            Role::DatabaseOwner(id) => RoleView::DatabaseOwner(*id),
            Role::DatabaseEditor(id) => RoleView::DatabaseEditor(*id),
            Role::DatabaseReader(id) => RoleView::DatabaseReader(*id),
            Role::Custom(name) => RoleView::Custom(name@),
        }
    }
}

/// The name of a role, as a token's `roles` claim spells it.
pub open spec fn role_name(role: RoleView) -> Seq<char> {
    match role {
        RoleView::TenantAdmin => "tenant_admin"@,
        RoleView::ReadWrite => "readwrite"@,
        RoleView::ReadOnly => "readonly"@,
        RoleView::Monitor => "monitor"@,
        RoleView::DatabaseOwner(id) => "database_owner:"@ + text::decimal(id.0 as nat),
        RoleView::DatabaseEditor(id) => "database_editor:"@ + text::decimal(id.0 as nat),
        RoleView::DatabaseReader(id) => "database_reader:"@ + text::decimal(id.0 as nat),
        RoleView::Custom(name) => name,
    }
}

impl Role {
    /// Whether the two roles are the same.
    pub fn is(&self, other: &Role) -> (r: bool)
        ensures
            r == (self@ == other@),
    {
        match (self, other) {
            (Role::TenantAdmin, Role::TenantAdmin) => true,
            (Role::ReadWrite, Role::ReadWrite) => true,
            (Role::ReadOnly, Role::ReadOnly) => true,
            (Role::Monitor, Role::Monitor) => true,
            (Role::DatabaseOwner(a), Role::DatabaseOwner(b)) => *a == *b,
            (Role::DatabaseEditor(a), Role::DatabaseEditor(b)) => *a == *b,
            (Role::DatabaseReader(a), Role::DatabaseReader(b)) => *a == *b,
            (Role::Custom(a), Role::Custom(b)) => text::same_text(a.as_str(), b.as_str()),
            _ => false,
        }
    }

    /// The name of the role.
    pub fn name(&self) -> (r: String)
        ensures
            r@ == role_name(self@),
    {
        match self {
            Role::TenantAdmin => "tenant_admin".to_owned(),
            Role::ReadWrite => "readwrite".to_owned(),
            Role::ReadOnly => "readonly".to_owned(),
            Role::Monitor => "monitor".to_owned(),
            Role::DatabaseOwner(id) => "database_owner:".to_owned().concat(
                text::decimal_text(id.0).as_str(),
            ),
            Role::DatabaseEditor(id) => "database_editor:".to_owned().concat(
                text::decimal_text(id.0).as_str(),
            ),
            Role::DatabaseReader(id) => "database_reader:".to_owned().concat(
                text::decimal_text(id.0).as_str(),
            ),
            Role::Custom(name) => name.clone(),
        }
    }
}

/// The databases that an identity may use.
#[derive(Debug, Clone)]
pub enum DatabaseSet {
    All,
    Only(Vec<DatabaseId>),
}

impl DatabaseSet {
    pub open spec fn has(self, id: DatabaseId) -> bool {
        match self {
            DatabaseSet::All => true,
            DatabaseSet::Only(ids) => ids@.contains(id),
        }
    }

    /// Whether the set holds the database.
    pub fn contains(&self, id: DatabaseId) -> (r: bool)
        ensures
            r == self.has(id),
    {
        match self {
            DatabaseSet::All => true,
            DatabaseSet::Only(ids) => {
                let mut i: usize = 0;
                while i < ids.len()
                    invariant
                        *self == DatabaseSet::Only(*ids),
                        i <= ids@.len(),
                        forall|j: int| 0 <= j < i ==> ids@[j] != id,
                    decreases ids@.len() - i,
                {
                    if ids[i] == id {
                        return true;
                    }
                    i += 1;
                }
                false
            },
        }
    }
}

/// A client whose identity has been established.
#[derive(Debug, Clone)]
pub struct AuthenticatedIdentity {
    pub user_id: u64,
    pub username: String,
    pub tenant_id: TenantId,
    pub auth_method: AuthMethod,
    pub roles: Vec<Role>,
    pub is_superuser: bool,
    pub default_database: Option<DatabaseId>,
    pub databases: DatabaseSet,
}

/// The views of a list of roles.
pub open spec fn role_views(roles: Seq<Role>) -> Seq<RoleView> {
    roles.map_values(|r: Role| r@)
}

impl AuthenticatedIdentity {
    /// Whether the identity acts in the role: it holds it, or it is a superuser.
    pub open spec fn acts_as(self, role: RoleView) -> bool {
        self.is_superuser || role_views(self.roles@).contains(role)
    }

    /// Whether the identity may use the database.
    pub open spec fn may_use(self, database: DatabaseId) -> bool {
        self.is_superuser || self.databases.has(database)
    }

    /// An identity that is no superuser.
    pub fn new_regular(
        user_id: u64,
        username: &str,
        tenant_id: TenantId,
        auth_method: AuthMethod,
        roles: Vec<Role>,
        default_database: Option<DatabaseId>,
        databases: DatabaseSet,
    ) -> (r: Self)
        ensures
            r.user_id == user_id,
            r.username@ == username@,
            r.tenant_id == tenant_id,
            r.auth_method == auth_method,
            r.roles == roles,
            !r.is_superuser,
            r.default_database == default_database,
            r.databases == databases,
    {
        AuthenticatedIdentity {
            user_id,
            username: username.to_owned(),
            tenant_id,
            auth_method,
            roles,
            is_superuser: false,
            default_database,
            databases,
        }
    }

    /// Whether the identity acts in the role.
    pub fn has_role(&self, role: &Role) -> (r: bool)
        ensures
            r == self.acts_as(role@),
    {
        if self.is_superuser {
            return true;
        }
        let ghost views = role_views(self.roles@);
        let mut i: usize = 0;
        while i < self.roles.len()
            invariant
                !self.is_superuser,
                views == role_views(self.roles@),
                i <= self.roles@.len(),
                forall|j: int| 0 <= j < i ==> views[j] != role@,
            decreases self.roles@.len() - i,
        {
            assert(views[i as int] == self.roles@[i as int]@);
            if self.roles[i].is(role) {
                return true;
            }
            i += 1;
        }
        false
    }

    /// Whether the identity may use the database.
    pub fn can_access_database(&self, database: DatabaseId) -> (r: bool)
        ensures
            r == self.may_use(database),
    {
        self.is_superuser || self.databases.contains(database)
    }

    /// The names of the identity's roles, in order.
    pub fn role_names(&self) -> (r: Vec<String>)
        ensures
            r@.len() == self.roles@.len(),
            forall|i: int|
                0 <= i < r@.len() ==> (#[trigger] r@[i])@ == role_name(self.roles@[i]@),
    {
        let mut names: Vec<String> = Vec::new();
        let mut i: usize = 0;
        while i < self.roles.len()
            invariant
                i <= self.roles@.len(),
                names@.len() == i,
                forall|j: int| 0 <= j < i ==> (#[trigger] names@[j])@ == role_name(self.roles@[j]@),
            decreases self.roles@.len() - i,
        {
            names.push(self.roles[i].name());
            i += 1;
        }
        names
    }
}

} // verus!
