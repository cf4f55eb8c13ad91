//! Access checks over role names as the services read them from storage.
use vstd::prelude::*;
use crate::common::access::{holds_owner, law_role_name_round_trip, may_manage, role_name, Role};
use crate::error::ModelError;
use crate::strings::{str_eq, to_owned_string};

verus! {

/// Some role name in the list is `owner`.
pub open spec fn names_contain(roles: Seq<&str>, name: Seq<char>) -> bool {
    exists|i: int| 0 <= i < roles.len() && #[trigger] roles[i]@ == name
}

/// Check if any role equals "owner".
pub fn has_owner(roles: &Vec<&str>) -> (r: bool)
    ensures
        r == names_contain(roles@, "owner"@),
{
    let n = roles.len();
    for i in 0..n
        invariant
            n == roles@.len(),
            forall|j: int| 0 <= j < i ==> roles@[j]@ != "owner"@,
    {
        if str_eq(roles[i], "owner") {
            assert(roles@[i as int]@ == "owner"@);
            return true;
        }
    }
    false
}

/// Check if any role equals "owner" or "manage".
pub fn has_owner_or_manage(roles: &Vec<&str>) -> (r: bool)
    ensures
        r == (names_contain(roles@, "owner"@) || names_contain(roles@, "manage"@)),
{
    let n = roles.len();
    for i in 0..n
        invariant
            n == roles@.len(),
            forall|j: int| 0 <= j < i ==> roles@[j]@ != "owner"@ && roles@[j]@ != "manage"@,
    {
        if str_eq(roles[i], "owner") || str_eq(roles[i], "manage") {
            assert(roles@[i as int]@ == "owner"@ || roles@[i as int]@ == "manage"@);
            return true;
        }
    }
    false
}

/// The message when a session tries to revoke its own access.
pub const OWN_REVOKE: &'static str = "Cannot revoke own access";

/// Prevent revoking own access; a bad request when target == session.
pub fn ensure_not_self_revoke(target_address: &str, session_address: &str) -> (r: Result<
    (),
    ModelError,
>)
    ensures
        (target_address@ == session_address@) <==> r is Err,
        r matches Err(e) ==> e is BadRequest && e.msg() == OWN_REVOKE@,
{
    if str_eq(target_address, session_address) {
        Err(ModelError::BadRequest(to_owned_string(OWN_REVOKE)))
    } else {
        Ok(())
    }
}


/// Checking roles by their stored names agrees with checking the roles:
/// `has_owner` and `has_owner_or_manage` over the names of roles decide as
/// they do over the roles themselves.
pub proof fn law_name_checks_agree_with_role_checks(roles: Seq<Role>, names: Seq<&str>)
    requires
        names.len() == roles.len(),
        forall|i: int| 0 <= i < roles.len() ==> #[trigger] names[i]@ == role_name(roles[i]),
    ensures
        names_contain(names, "owner"@) == holds_owner(roles),
        (names_contain(names, "owner"@) || names_contain(names, "manage"@)) == may_manage(roles),
{
    assert forall|i: int| 0 <= i < roles.len() implies (#[trigger] names[i]@ == "owner"@ <==> roles[i] == Role::Owner)
        && (names[i]@ == "manage"@ <==> roles[i] == Role::Manage) by {
        law_role_name_round_trip(roles[i], "owner"@);
        law_role_name_round_trip(roles[i], "manage"@);
        law_role_name_round_trip(Role::Owner, "owner"@);
        law_role_name_round_trip(Role::Manage, "manage"@);
    }
    if holds_owner(roles) {
        let i = choose|i: int| 0 <= i < roles.len() && roles[i] == Role::Owner;
        assert(names[i]@ == "owner"@);
    }
    if roles.contains(Role::Manage) {
        let i = choose|i: int| 0 <= i < roles.len() && roles[i] == Role::Manage;
        assert(names[i]@ == "manage"@);
    }
    if names_contain(names, "owner"@) {
        let i = choose|i: int| 0 <= i < names.len() && #[trigger] names[i]@ == "owner"@;
        assert(roles[i] == Role::Owner);
    }
    if names_contain(names, "manage"@) {
        let i = choose|i: int| 0 <= i < names.len() && #[trigger] names[i]@ == "manage"@;
        assert(roles[i] == Role::Manage);
    }
}

} // verus!
