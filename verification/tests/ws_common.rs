use ws::common::access::{revoke_all_step, role_change_step, AccessStep};
use ws::common::access::{
    check_am_owner, check_grant_role, ensure_not_self, has_owner, has_owner_or_manage, is_role,
    validate_grant_role, ItemRole, ItemRoleDb, ItemRoleDto, Role, SqliteItemAccessQueries,
};
use ws::common::item_fields::{NewItemFields, PatchItemFields};
use ws::common::service_access::ensure_not_self_revoke;
use ws::common::service_access::has_owner as names_have_owner;
use ws::common::service_access::has_owner_or_manage as names_have_owner_or_manage;
use ws::common::slug::{generate_slug, is_valid_slug, slug_for};
use ws::db::sql::SqlValue;
use ws::error::ModelError;

#[test]
fn has_owner_true_when_owner_present() {
    assert!(has_owner(&Vec::from([Role::View, Role::Owner])));
    assert!(!has_owner(&Vec::from([Role::View, Role::Edit])));
}

#[test]
fn has_owner_or_manage_true_for_owner_or_manage() {
    assert!(has_owner_or_manage(&Vec::from([Role::Manage])));
    assert!(has_owner_or_manage(&Vec::from([Role::Owner])));
    assert!(!has_owner_or_manage(&Vec::from([Role::Edit, Role::View])));
}

#[test]
fn ensure_not_self_revoke_blocks_same_address() {
    let err = ensure_not_self("a@b", "a@b").unwrap_err();
    match err {
        ModelError::BadRequest(_) => {}
        _ => panic!("unexpected error type"),
    }
}

#[test]
fn ensure_not_self_revoke_allows_other_address() {
    assert!(ensure_not_self("x@b", "a@b").is_ok());
}

#[test]
fn service_access_checks() {
    assert!(names_have_owner(&vec!["view", "owner"]));
    assert!(!names_have_owner(&vec!["view", "manage"]));
    assert!(names_have_owner_or_manage(&vec!["edit", "manage"]));
    assert!(!names_have_owner_or_manage(&vec!["edit", "view"]));
    match ensure_not_self_revoke("me", "me") {
        Err(ModelError::BadRequest(m)) => assert_eq!(m, "Cannot revoke own access"),
        _ => panic!("expected a bad request"),
    }
    assert!(ensure_not_self_revoke("you", "me").is_ok());
}

#[test]
fn role_names_round_trip() {
    for r in [Role::Owner, Role::Manage, Role::Edit, Role::View] {
        let name = r.name();
        assert!(is_role(&name));
        assert_eq!(Role::from_name(&name), r);
    }
    assert_eq!(Role::Owner.name(), "owner");
    assert!(!is_role("admin"));
}

#[test]
fn grant_roles_are_checked() {
    assert!(validate_grant_role("view").is_ok());
    assert!(validate_grant_role("edit").is_ok());
    assert!(validate_grant_role("manage").is_ok());
    let err = validate_grant_role("owner").unwrap_err();
    assert_eq!(err.code, "invalid_role");
    match check_grant_role("owner") {
        Err(ModelError::BadRequest(m)) => assert_eq!(m, "Invalid role"),
        _ => panic!("expected a bad request"),
    }
    match check_am_owner(0) {
        Err(ModelError::Forbidden(m)) => assert_eq!(m, "Only owner can manage access"),
        _ => panic!("expected forbidden"),
    }
    assert!(check_am_owner(1).is_ok());
    match ensure_not_self("a", "a") {
        Err(ModelError::BadRequest(m)) => assert_eq!(m, "Cannot manage own access"),
        _ => panic!("expected a bad request"),
    }
}

#[test]
fn item_roles_convert() {
    let dto = ItemRoleDto { address: "bob@x".to_string(), role: "edit".to_string(), item_id: 7i64 };
    assert!(dto.validate().is_ok());
    let role = ItemRole::from_dto(&dto);
    assert_eq!(role.item_id, 7);
    assert_eq!(role.address, "bob@x");
    assert_eq!(role.role, Role::Edit);
    let db = ItemRoleDb::from_role(&role);
    assert_eq!(db.role, "edit");
    let back = ItemRole::from_db(7i64, &db);
    assert_eq!(back.role, Role::Edit);
    let short = ItemRoleDto { address: "ab".to_string(), role: "view".to_string(), item_id: 1i64 };
    assert_eq!(short.validate().unwrap_err().to_string(), "address: Validation error: length");
}

#[test]
fn access_role_statements() {
    let q = SqliteItemAccessQueries::new("board_access_roles", "board_id");
    let s = q.get_access_roles_query(3, "a@b", Some(&vec!["owner", "manage"]));
    assert_eq!(s.sql, "SELECT role FROM board_access_roles WHERE board_id = ? AND address = ? AND role IN (?, ?)");
    assert_eq!(
        s.binds,
        vec![
            SqlValue::Int(3),
            SqlValue::Text("a@b".to_string()),
            SqlValue::Text("owner".to_string()),
            SqlValue::Text("manage".to_string()),
        ]
    );
    let s = q.get_access_roles_query(3, "a@b", Some(&vec![]));
    assert_eq!(s.sql, "SELECT role FROM board_access_roles WHERE board_id = ? AND address = ?");
    let s = q.list_access_roles_query(3);
    assert_eq!(s.sql, "SELECT address, role FROM board_access_roles WHERE board_id = ? ORDER BY address");
    let role = ItemRoleDb { address: "a@b".to_string(), role: "view".to_string() };
    let s = q.add_access_role_query(3, &role);
    assert_eq!(s.sql, "INSERT INTO board_access_roles (board_id, address, role) VALUES (?, ?, ?) RETURNING address, role");
    let s = q.revoke_access_roles_query(3, "a@b");
    assert_eq!(s.sql, "DELETE FROM board_access_roles WHERE board_id = ? AND address = ? RETURNING address, role");
    let s = q.revoke_access_role_query(3, &role);
    assert_eq!(s.sql, "DELETE FROM board_access_roles WHERE board_id = ? AND address = ? AND role = ? RETURNING address, role");
}

#[test]
fn new_item_fields_valid() {
    let item = NewItemFields {
        name: "Valid Name".to_string(),
        slug: None,
        description: Some("desc".to_string()),
        icon: Some("icon".to_string()),
        is_public: None,
    };
    assert!(item.validate().is_ok());
}

#[test]
fn new_item_fields_name_too_short() {
    let item = NewItemFields { name: "ab".to_string(), slug: None, description: None, icon: None, is_public: None };
    assert!(item.validate().is_err());
}

#[test]
fn patch_item_fields_description_length_limits() {
    let ok = PatchItemFields {
        name: None,
        description: Some(Some("x".repeat(500))),
        icon: None,
        is_public: None,
    };
    assert!(ok.validate().is_ok());

    let too_long = PatchItemFields {
        name: None,
        description: Some(Some("x".repeat(501))),
        icon: None,
        is_public: None,
    };
    assert!(too_long.validate().is_err());
}

#[test]
fn item_fields_report_every_failed_check() {
    let item = NewItemFields {
        name: "ab".to_string(),
        slug: Some("Bad Slug".to_string()),
        description: Some("d".repeat(501)),
        icon: Some("i".repeat(256)),
        is_public: None,
    };
    assert_eq!(
        item.validate().unwrap_err().to_string(),
        "name: Validation error: length\nslug: Validation error: slug_format\ndescription: Validation error: length\nicon: Validation error: length"
    );
}

#[test]
fn generate_slug_basic() {
    assert_eq!(generate_slug("My Board"), "my-board");
    assert_eq!(generate_slug("Simple"), "simple");
}

#[test]
fn generate_slug_with_numbers() {
    assert_eq!(generate_slug("Board 123"), "board-123");
    assert_eq!(generate_slug("Version 2.0"), "version-2-0");
}

#[test]
fn generate_slug_starts_with_number() {
    assert_eq!(generate_slug("123 Board"), "item-123-board");
    assert_eq!(generate_slug("42 Answer"), "item-42-answer");
}

#[test]
fn generate_slug_special_characters() {
    assert_eq!(generate_slug("My Board!"), "my-board");
    assert_eq!(generate_slug("Test & Demo"), "test-demo");
    assert_eq!(generate_slug("A/B Testing"), "a-b-testing");
}

#[test]
fn generate_slug_whitespace() {
    assert_eq!(generate_slug("  Spaced  Out  "), "spaced-out");
    assert_eq!(generate_slug("\tTab\tSeparated\t"), "tab-separated");
}

#[test]
fn generate_slug_empty_or_invalid() {
    assert_eq!(generate_slug(""), "item-");
    assert_eq!(generate_slug("!!!"), "item-");
    assert_eq!(generate_slug("   "), "item-");
}

#[test]
fn is_valid_slug_positive() {
    assert!(is_valid_slug("my-board"));
    assert!(is_valid_slug("board123"));
    assert!(is_valid_slug("a"));
    assert!(is_valid_slug("simple-name"));
}

#[test]
fn is_valid_slug_negative() {
    assert!(!is_valid_slug("123-board"));
    assert!(!is_valid_slug("my_board"));
    assert!(!is_valid_slug(""));
    assert!(!is_valid_slug("My-Board"));
    assert!(!is_valid_slug("-my-board"));
    assert!(!is_valid_slug("my-board-"));
}

#[test]
fn generated_slugs_have_no_double_hyphens() {
    for name in ["a  b", "--x--", "Über Straße", "x!!y", "9 lives"] {
        let s = generate_slug(name);
        assert!(!s.contains("--"), "{:?}", s);
        assert!(!s.ends_with('-') || s == "item-", "{:?}", s);
    }
}

#[test]
fn chosen_slug_wins() {
    assert_eq!(slug_for(Some("mine"), "My Board"), "mine");
    assert_eq!(slug_for(None, "My Board"), "my-board");
}

#[test]
fn generated_slugs_are_valid_and_stable() {
    for name in ["My Awesome Board", "Board 123!", "123 Numbers", "  Spaced  Out  ", "a", "9", "--X--y--"] {
        let slug = generate_slug(name);
        assert!(is_valid_slug(&slug), "{} gives {}", name, slug);
        assert!(!slug.contains("--"));
        assert_eq!(generate_slug(&slug), slug);
    }
    assert_eq!(generate_slug("!!!"), "item-");
    assert_eq!(generate_slug("item-"), "item");
}

#[test]
fn slug_pattern_rules() {
    assert!(is_valid_slug("a"));
    assert!(is_valid_slug("a--b"));
    assert!(is_valid_slug("board-123"));
    assert!(!is_valid_slug(""));
    assert!(!is_valid_slug("a-"));
    assert!(!is_valid_slug("1a"));
    assert!(!is_valid_slug("Ab"));
    assert!(!is_valid_slug("a b"));
}

#[test]
fn access_changes_check_in_order() {
    let refused = |s: AccessStep| match s {
        AccessStep::Refuse(e) => e.to_string(),
        _ => String::new(),
    };
    assert_eq!(refused(role_change_step("owner", "me", "me", Some(0))), "Bad Request: Invalid role");
    assert!(matches!(role_change_step("view", "me", "me", None), AccessStep::CheckOwner));
    assert!(matches!(role_change_step("view", "me", "me", Some(0)), AccessStep::Refuse(ModelError::Forbidden(_))));
    assert!(matches!(role_change_step("view", "me", "me", Some(1)), AccessStep::Refuse(ModelError::BadRequest(_))));
    assert!(matches!(role_change_step("edit", "you", "me", Some(1)), AccessStep::Store));
    assert!(matches!(revoke_all_step("me", "me", Some(0)), AccessStep::Refuse(ModelError::BadRequest(_))));
    assert!(matches!(revoke_all_step("you", "me", None), AccessStep::CheckOwner));
    assert!(matches!(revoke_all_step("you", "me", Some(0)), AccessStep::Refuse(ModelError::Forbidden(_))));
    assert!(matches!(revoke_all_step("you", "me", Some(2)), AccessStep::Store));
}
