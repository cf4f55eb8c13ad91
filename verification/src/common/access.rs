//! Access roles on items (boards, packages): role names, the checks the
//! services make, and the statements on the access-role tables.
use vstd::prelude::*;
use vstd::string::StringExecFns;
use vstd::string::StrSliceExecFns;
use crate::common::item_fields::{FieldError, ValidationErrors};
use crate::db::sql::{binds_view, SqlQuery, SqlValue, SqlValueView};
use crate::error::ModelError;
use crate::strings::{push_char, str_eq, to_owned_string};

verus! {

/// A failed check, known by its code (as `validator` codes its failures).
#[derive(Debug, Clone, Copy, PartialEq, Eq)]
pub struct CodeError {
    pub code: &'static str,
}

/// Shared role enumeration used across features that implement access control.
#[derive(Debug, Clone, Copy, PartialEq, Eq, Structural)]
pub enum Role {
    Owner,
    Manage,
    Edit,
    View,
}

pub const ROLE_OWNER: &'static str = "owner";

pub const ROLE_MANAGE: &'static str = "manage";

pub const ROLE_EDIT: &'static str = "edit";

pub const ROLE_VIEW: &'static str = "view";

/// The stored name of a role.
pub open spec fn role_name(r: Role) -> Seq<char> {
    match r {
        Role::Owner => "owner"@,
        Role::Manage => "manage"@,
        Role::Edit => "edit"@,
        Role::View => "view"@,
    }
}

/// The name of some role.
pub open spec fn is_role_name(s: Seq<char>) -> bool {
    s == "owner"@ || s == "manage"@ || s == "edit"@ || s == "view"@
}

/// The role with the given name.
pub open spec fn role_of(s: Seq<char>) -> Role {
    if s == "owner"@ {
        Role::Owner
    } else if s == "manage"@ {
        Role::Manage
    } else if s == "edit"@ {
        Role::Edit
    } else {
        Role::View
    }
}

/// A role that may be granted or revoked by an owner: any but `owner`.
pub open spec fn is_grant_role_name(s: Seq<char>) -> bool {
    s == "view"@ || s == "edit"@ || s == "manage"@
}

/// Whether `role` names a role.
pub fn is_role(role: &str) -> (r: bool)
    ensures
        r == is_role_name(role@),
{
    str_eq(role, "owner") || str_eq(role, "manage") || str_eq(role, "edit") || str_eq(
        role,
        "view",
    )
}

impl Role {
    /// The role with the given name; the name must be one of the four.
    pub fn from_name(role: &str) -> (r: Role)
        requires
            is_role_name(role@),
        ensures
            r == role_of(role@),
    {
        if str_eq(role, "owner") {
            Role::Owner
        } else if str_eq(role, "manage") {
            Role::Manage
        } else if str_eq(role, "edit") {
            Role::Edit
        } else {
            Role::View
        }
    }

    /// The stored name of the role.
    pub fn name(self) -> (r: String)
        ensures
            r@ == role_name(self),
    {
        match self {
            Role::Owner => to_owned_string("owner"),
            Role::Manage => to_owned_string("manage"),
            Role::Edit => to_owned_string("edit"),
            Role::View => to_owned_string("view"),
        }
    }
}

/// A role's name reads back as the same role, and every name reads as the
/// role whose name it is.
pub proof fn law_role_name_round_trip(r: Role, s: Seq<char>)
    ensures
        is_role_name(role_name(r)),
        role_of(role_name(r)) == r,
        is_role_name(s) ==> role_name(role_of(s)) == s,
{
    reveal_strlit("owner");
    reveal_strlit("manage");
    reveal_strlit("edit");
    reveal_strlit("view");
    assert("owner"@.len() == 5 && "manage"@.len() == 6 && "edit"@.len() == 4 && "view"@.len() == 4);
    assert("owner"@ != "manage"@ && "owner"@ != "edit"@ && "owner"@ != "view"@);
    assert("manage"@ != "edit"@ && "manage"@ != "view"@);
    assert("edit"@[0] != "view"@[0]);
    assert("edit"@ != "view"@);
}

/// Validate a role name for grant and revoke: `view`, `edit` or `manage`;
/// any other name fails with the code `invalid_role`.
pub fn validate_grant_role(role: &str) -> (r: Result<(), CodeError>)
    ensures
        is_grant_role_name(role@) <==> r is Ok,
        r matches Err(e) ==> e.code@ == "invalid_role"@,
{
    if str_eq(role, "view") || str_eq(role, "edit") || str_eq(role, "manage") {
        Ok(())
    } else {
        Err(CodeError { code: "invalid_role" })
    }
}

/// The roles include `Owner` (what `has_owner` decides).
pub open spec fn holds_owner(roles: Seq<Role>) -> bool {
    roles.contains(Role::Owner)
}

/// The roles include `Owner` or `Manage` (what `has_owner_or_manage` decides).
pub open spec fn may_manage(roles: Seq<Role>) -> bool {
    roles.contains(Role::Owner) || roles.contains(Role::Manage)
}

/// Check if any role equals `Owner`.
pub fn has_owner(roles: &Vec<Role>) -> (r: bool)
    ensures
        r == holds_owner(roles@),
{
    let n = roles.len();
    for i in 0..n
        invariant
            n == roles@.len(),
            forall|j: int| 0 <= j < i ==> roles@[j] != Role::Owner,
    {
        if roles[i] == Role::Owner {
            return true;
        }
    }
    false
}

/// Check if any role equals `Owner` or `Manage`.
pub fn has_owner_or_manage(roles: &Vec<Role>) -> (r: bool)
    ensures
        r == may_manage(roles@),
{
    let n = roles.len();
    for i in 0..n
        invariant
            n == roles@.len(),
            forall|j: int| 0 <= j < i ==> roles@[j] != Role::Owner && roles@[j] != Role::Manage,
    {
        if roles[i] == Role::Owner || roles[i] == Role::Manage {
            assert(roles@[i as int] == roles[i as int]);
            return true;
        }
    }
    false
}

/// Whoever passes `has_owner` also passes `has_owner_or_manage`.
pub proof fn law_owner_may_manage(roles: Seq<Role>)
    ensures
        holds_owner(roles) ==> may_manage(roles),
{
}

/// The message when a session tries to change its own access.
pub const OWN_ACCESS: &'static str = "Cannot manage own access";

/// Prevent managing own access; a bad request when target == session.
pub fn ensure_not_self(target_address: &str, session_address: &str) -> (r: Result<(), ModelError>)
    ensures
        (target_address@ == session_address@) <==> r is Err,
        r matches Err(e) ==> e is BadRequest && e.msg() == OWN_ACCESS@,
{
    if str_eq(target_address, session_address) {
        Err(ModelError::BadRequest(to_owned_string(OWN_ACCESS)))
    } else {
        Ok(())
    }
}

/// The message when a grant or revoke names a role that cannot be granted.
pub const INVALID_ROLE: &'static str = "Invalid role";

/// The message when someone other than an owner manages access.
pub const OWNER_ONLY: &'static str = "Only owner can manage access";

/// The service's check of a role to grant or revoke: a bad request unless
/// it is `view`, `edit` or `manage`.
pub fn check_grant_role(role: &str) -> (r: Result<(), ModelError>)
    ensures
        is_grant_role_name(role@) <==> r is Ok,
        r matches Err(e) ==> e is BadRequest && e.msg() == INVALID_ROLE@,
{
    match validate_grant_role(role) {
        Ok(()) => Ok(()),
        Err(_) => Err(ModelError::BadRequest(to_owned_string(INVALID_ROLE))),
    }
}

/// The service's owner check, given how many owner roles the session holds on
/// the item: forbidden when none.
pub fn check_am_owner(owner_roles: usize) -> (r: Result<(), ModelError>)
    ensures
        owner_roles == 0 <==> r is Err,
        r matches Err(e) ==> e is Forbidden && e.msg() == OWNER_ONLY@,
{
    if owner_roles == 0 {
        Err(ModelError::Forbidden(to_owned_string(OWNER_ONLY)))
    } else {
        Ok(())
    }
}

/// What a change of access does next: check that the session owns the item,
/// store the change, or refuse it with an error.
#[derive(Debug)]
pub enum AccessStep {
    CheckOwner,
    Store,
    Refuse(ModelError),
}

/// The step of granting or revoking one role of `target` by `session`, before
/// the owner check (`owner_roles` is `None`) and after it (the number of owner
/// roles the session holds on the item). The checks come in this order: a role
/// that cannot be granted, then the owner check, then a change of one's own
/// access.
pub fn role_change_step(role: &str, target: &str, session: &str, owner_roles: Option<usize>) -> (r: AccessStep)
    ensures
        !is_grant_role_name(role@) ==> (r matches AccessStep::Refuse(e) && e is BadRequest && e.msg() == INVALID_ROLE@),
        is_grant_role_name(role@) && owner_roles is None ==> r is CheckOwner,
        is_grant_role_name(role@) && owner_roles == Some(0usize) ==> (r matches AccessStep::Refuse(e) && e is Forbidden
            && e.msg() == OWNER_ONLY@),
        is_grant_role_name(role@) && owner_roles is Some && owner_roles->Some_0 > 0 && target@ == session@ ==> (r matches AccessStep::Refuse(e)
            && e is BadRequest && e.msg() == OWN_ACCESS@),
        is_grant_role_name(role@) && owner_roles is Some && owner_roles->Some_0 > 0 && target@ != session@ ==> r is Store,
{
    if let Err(e) = check_grant_role(role) {
        return AccessStep::Refuse(e);
    }
    match owner_roles {
        None => AccessStep::CheckOwner,
        Some(n) => match check_am_owner(n) {
            Err(e) => AccessStep::Refuse(e),
            Ok(()) => match ensure_not_self(target, session) {
                Err(e) => AccessStep::Refuse(e),
                Ok(()) => AccessStep::Store,
            },
        },
    }
}

/// The step of revoking every role of `target` by `session`: a change of one's
/// own access is refused first, then comes the owner check, as in
/// `role_change_step`.
pub fn revoke_all_step(target: &str, session: &str, owner_roles: Option<usize>) -> (r: AccessStep)
    ensures
        target@ == session@ ==> (r matches AccessStep::Refuse(e) && e is BadRequest && e.msg() == OWN_ACCESS@),
        target@ != session@ && owner_roles is None ==> r is CheckOwner,
        target@ != session@ && owner_roles == Some(0usize) ==> (r matches AccessStep::Refuse(e) && e is Forbidden
            && e.msg() == OWNER_ONLY@),
        target@ != session@ && owner_roles is Some && owner_roles->Some_0 > 0 ==> r is Store,
{
    if let Err(e) = ensure_not_self(target, session) {
        return AccessStep::Refuse(e);
    }
    match owner_roles {
        None => AccessStep::CheckOwner,
        Some(n) => match check_am_owner(n) {
            Err(e) => AccessStep::Refuse(e),
            Ok(()) => AccessStep::Store,
        },
    }
}

/// Generic session access role DTO: address + role.
#[derive(Debug)]
pub struct ItemRoleDto<Id: Clone> {
    pub address: String,
    pub role: String,
    pub item_id: Id,
}

/// Fewest characters in an address.
pub const ADDRESS_MIN: usize = 3;

/// Most characters in an address.
pub const ADDRESS_MAX: usize = 255;

impl<Id: Clone> ItemRoleDto<Id> {
    /// Checks the address: 3 to 255 characters.
    pub fn validate(&self) -> (r: Result<(), ValidationErrors>)
        ensures
            r is Ok <==> (ADDRESS_MIN <= self.address@.len() <= ADDRESS_MAX),
            r matches Err(e) ==> e.errors@.len() == 1 && e.errors@[0].field@ == "address"@
                && e.errors@[0].code@ == "length"@,
    {
        let n = self.address.as_str().unicode_len();
        if n < ADDRESS_MIN || n > ADDRESS_MAX {
            let mut errors: Vec<FieldError> = Vec::new();
            errors.push(FieldError { field: "address", code: "length" });
            Err(ValidationErrors { errors })
        } else {
            Ok(())
        }
    }
}

/// Generic session access role: address + role.
#[derive(Debug)]
pub struct ItemRole<Id: Clone> {
    pub item_id: Id,
    pub address: String,
    pub role: Role,
}

/// Item role Db record with role field only.
#[derive(Debug)]
pub struct RoleOnly {
    pub role: String,
}

/// Item Role Db Record.
#[derive(Debug)]
pub struct ItemRoleDb {
    pub address: String,
    pub role: String,
}

impl<Id: Clone> ItemRole<Id> {
    /// The role of a request; its role name must name a role.
    pub fn from_dto(dto: &ItemRoleDto<Id>) -> (r: ItemRole<Id>)
        requires
            is_role_name(dto.role@),
        ensures
            cloned(dto.item_id, r.item_id),
            r.address@ == dto.address@,
            r.role == role_of(dto.role@),
    {
        ItemRole {
            item_id: dto.item_id.clone(),
            address: dto.address.clone(),
            role: Role::from_name(dto.role.as_str()),
        }
    }

    /// The role of a stored record for an item; its role name must name a role.
    pub fn from_db(id: Id, db: &ItemRoleDb) -> (r: ItemRole<Id>)
        requires
            is_role_name(db.role@),
        ensures
            r.item_id == id,
            r.address@ == db.address@,
            r.role == role_of(db.role@),
    {
        ItemRole { item_id: id, address: db.address.clone(), role: Role::from_name(db.role.as_str()) }
    }
}

impl ItemRoleDb {
    /// The record of a role.
    pub fn from_role<Id: Clone>(role: &ItemRole<Id>) -> (r: ItemRoleDb)
        ensures
            r.address@ == role.address@,
            r.role@ == role_name(role.role),
    {
        ItemRoleDb { address: role.address.clone(), role: role.role.name() }
    }
}

/// Statements on one access-role table: its name and the column of the item id.
pub struct SqliteItemAccessQueries {
    table: String,
    item_id_attr: String,
}

impl View for SqliteItemAccessQueries {
    type V = (Seq<char>, Seq<char>);

    /// The table and the item id column.
    closed spec fn view(&self) -> (Seq<char>, Seq<char>) {
        (self.table@, self.item_id_attr@)
    }
}

/// `n` placeholders separated by `", "`.
pub open spec fn placeholders(n: nat) -> Seq<char>
    decreases n,
{
    if n == 0 {
        Seq::empty()
    } else if n == 1 {
        seq!['?']
    } else {
        placeholders((n - 1) as nat) + seq![',', ' ', '?']
    }
}

/// The role names bound to a role list, in order.
pub open spec fn role_binds(roles: Seq<&str>) -> Seq<SqlValueView> {
    roles.map_values(|r: &str| SqlValueView::Text(r@))
}

/// Reading the roles of an address on an item, restricted to some roles when
/// a non-empty list is given (one placeholder per listed role).
pub open spec fn get_access_roles_sql(t: (Seq<char>, Seq<char>), roles: Option<nat>) -> Seq<char> {
    "SELECT role FROM "@ + t.0 + " WHERE "@ + t.1 + " = ? AND address = ?"@ + match roles {
        Some(n) => if n > 0 {
            " AND role IN ("@ + placeholders(n) + ")"@
        } else {
            Seq::empty()
        },
        None => Seq::empty(),
    }
}

impl SqliteItemAccessQueries {
    /// Statements on the given table, keyed by the given item id column.
    pub fn new(table: &str, item_id_attr: &str) -> (r: Self)
        ensures
            r@ == (table@, item_id_attr@),
    {
        Self { table: to_owned_string(table), item_id_attr: to_owned_string(item_id_attr) }
    }

    /// The roles of an address on an item, restricted to the listed roles
    /// when a non-empty list is given; the item id, the address and the
    /// listed roles are bound, in that order.
    pub fn get_access_roles_query(
        &self,
        item_id: i64,
        address: &str,
        roles: Option<&Vec<&str>>,
    ) -> (q: SqlQuery)
        ensures
            q.sql@ == get_access_roles_sql(
                self@,
                match roles {
                    Some(v) => Some(v@.len()),
                    None => None,
                },
            ),
            binds_view(q.binds@) == seq![SqlValueView::Int(item_id as int), SqlValueView::Text(address@)]
                + match roles {
                Some(v) => role_binds(v@),
                None => Seq::empty(),
            },
    {
        let mut sql = to_owned_string("SELECT role FROM ");
        sql.append(self.table.as_str());
        sql.append(" WHERE ");
        sql.append(self.item_id_attr.as_str());
        sql.append(" = ? AND address = ?");
        match roles {
            Some(v) => {
                if v.len() > 0 {
                    sql.append(" AND role IN (");
                    let ghost before = sql@;
                    let n = v.len();
                    for k in 0..n
                        invariant
                            sql@ == before + placeholders(k as nat),
                    {
                        if k > 0 {
                            push_char(&mut sql, ',');
                            push_char(&mut sql, ' ');
                        }
                        push_char(&mut sql, '?');
                        proof {
                            if k == 0 {
                                assert(sql@ =~= before + placeholders(1));
                            } else {
                                assert(sql@ =~= before + placeholders((k + 1) as nat));
                            }
                        }
                    }
                    sql.append(")");
                }
            },
            None => {},
        }
        let mut binds: Vec<SqlValue> = Vec::new();
        binds.push(SqlValue::Int(item_id));
        binds.push(SqlValue::Text(to_owned_string(address)));
        let ghost head = binds@;
        assert(binds_view(head) =~= seq![SqlValueView::Int(item_id as int), SqlValueView::Text(address@)]);
        match roles {
            Some(v) => {
                let n = v.len();
                for k in 0..n
                    invariant
                        n == v@.len(),
                        binds@.len() == head.len() + k,
                        binds_view(binds@) == binds_view(head) + role_binds(v@.take(k as int)),
                {
                    let ghost before = binds@;
                    binds.push(SqlValue::Text(to_owned_string(v[k])));
                    assert(v@.take(k + 1) =~= v@.take(k as int).push(v@[k as int]));
                    assert(binds_view(binds@) =~= binds_view(before).push(SqlValueView::Text(v@[k as int]@)));
                    assert(role_binds(v@.take(k + 1)) =~= role_binds(v@.take(k as int)).push(SqlValueView::Text(v@[k as int]@)));
                }
                assert(v@.take(n as int) =~= v@);
            },
            None => {
                assert(binds_view(binds@) =~= binds_view(head) + Seq::<SqlValueView>::empty());
            },
        }
        assert(sql@ =~= get_access_roles_sql(
            self@,
            match roles {
                Some(v) => Some(v@.len()),
                None => None,
            },
        ));
        SqlQuery { sql, binds }
    }

    /// The statement text `head table mid column tail`.
    fn table_statement(&self, head: &str, mid: &str, tail: &str) -> (r: String)
        ensures
            r@ == head@ + self@.0 + mid@ + self@.1 + tail@,
    {
        let mut sql = to_owned_string(head);
        sql.append(self.table.as_str());
        sql.append(mid);
        sql.append(self.item_id_attr.as_str());
        sql.append(tail);
        assert(sql@ =~= head@ + self@.0 + mid@ + self@.1 + tail@);
        sql
    }

    /// Every role on an item, ordered by address.
    pub fn list_access_roles_query(&self, item_id: i64) -> (q: SqlQuery)
        ensures
            q.sql@ == "SELECT address, role FROM "@ + self@.0 + " WHERE "@ + self@.1
                + " = ? ORDER BY address"@,
            binds_view(q.binds@) == seq![SqlValueView::Int(item_id as int)],
    {
        let sql = self.table_statement("SELECT address, role FROM ", " WHERE ", " = ? ORDER BY address");
        let mut binds: Vec<SqlValue> = Vec::new();
        binds.push(SqlValue::Int(item_id));
        assert(binds_view(binds@) =~= seq![SqlValueView::Int(item_id as int)]);
        SqlQuery { sql, binds }
    }

    /// Grant an address a role on an item.
    pub fn add_access_role_query(&self, item_id: i64, role: &ItemRoleDb) -> (q: SqlQuery)
        ensures
            q.sql@ == "INSERT INTO "@ + self@.0 + " ("@ + self@.1
                + ", address, role) VALUES (?, ?, ?) RETURNING address, role"@,
            binds_view(q.binds@) == seq![
                SqlValueView::Int(item_id as int),
                SqlValueView::Text(role.address@),
                SqlValueView::Text(role.role@),
            ],
    {
        let sql = self.table_statement(
            "INSERT INTO ",
            " (",
            ", address, role) VALUES (?, ?, ?) RETURNING address, role",
        );
        let mut binds: Vec<SqlValue> = Vec::new();
        binds.push(SqlValue::Int(item_id));
        binds.push(SqlValue::Text(role.address.clone()));
        binds.push(SqlValue::Text(role.role.clone()));
        assert(binds_view(binds@) =~= seq![
            SqlValueView::Int(item_id as int),
            SqlValueView::Text(role.address@),
            SqlValueView::Text(role.role@),
        ]);
        SqlQuery { sql, binds }
    }

    /// Revoke every role of an address on an item.
    pub fn revoke_access_roles_query(&self, item_id: i64, address: &str) -> (q: SqlQuery)
        ensures
            q.sql@ == "DELETE FROM "@ + self@.0 + " WHERE "@ + self@.1
                + " = ? AND address = ? RETURNING address, role"@,
            binds_view(q.binds@) == seq![SqlValueView::Int(item_id as int), SqlValueView::Text(address@)],
    {
        let sql = self.table_statement(
            "DELETE FROM ",
            " WHERE ",
            " = ? AND address = ? RETURNING address, role",
        );
        let mut binds: Vec<SqlValue> = Vec::new();
        binds.push(SqlValue::Int(item_id));
        binds.push(SqlValue::Text(to_owned_string(address)));
        assert(binds_view(binds@) =~= seq![SqlValueView::Int(item_id as int), SqlValueView::Text(address@)]);
        SqlQuery { sql, binds }
    }

    /// Revoke one role of an address on an item.
    pub fn revoke_access_role_query(&self, item_id: i64, role: &ItemRoleDb) -> (q: SqlQuery)
        ensures
            q.sql@ == "DELETE FROM "@ + self@.0 + " WHERE "@ + self@.1
                + " = ? AND address = ? AND role = ? RETURNING address, role"@,
            binds_view(q.binds@) == seq![
                SqlValueView::Int(item_id as int),
                SqlValueView::Text(role.address@),
                SqlValueView::Text(role.role@),
            ],
    {
        let sql = self.table_statement(
            "DELETE FROM ",
            " WHERE ",
            " = ? AND address = ? AND role = ? RETURNING address, role",
        );
        let mut binds: Vec<SqlValue> = Vec::new();
        binds.push(SqlValue::Int(item_id));
        binds.push(SqlValue::Text(role.address.clone()));
        binds.push(SqlValue::Text(role.role.clone()));
        assert(binds_view(binds@) =~= seq![
            SqlValueView::Int(item_id as int),
            SqlValueView::Text(role.address@),
            SqlValueView::Text(role.role@),
        ]);
        SqlQuery { sql, binds }
    }
}

} // verus!
