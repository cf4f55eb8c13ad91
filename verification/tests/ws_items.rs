use ws::boards::board_service::{check_delete_access, check_update_access, delete_roles, update_roles, Board, NewBoardItem, PatchBoardItem};
use ws::boards::board_store::{BoardDb, BoardStore, NewBoardDb, PatchBoardDb};
use ws::common::crud::{session_lister, ListFilter, ListParams, QueryFilter, QueryLister, QueryPager};
use ws::common::item_fields::{NewItemFields, PatchItemFields};
use ws::db::sql::{build_set, SqlValue};
use ws::error::ModelError;
use ws::package::package_service::{NewPackageItem, Package, PatchPackageItem};
use ws::package::package_store::{NewPackageDb, PackageDb, PackageStore, PatchPackageDb};

#[test]
fn test_create_dto_to_db_conversion_positives() {
    let dtos = vec![
        NewBoardItem { base: NewItemFields { name: "Test Board".into(), slug: None, description: Some("A test board".into()), icon: Some("🧩".into()), is_public: Some(true) } },
        NewBoardItem { base: NewItemFields { name: "Another Board".into(), slug: Some("custom-slug".into()), description: None, icon: None, is_public: None } },
    ];

    let expectations = vec![
        ("Test Board", "test-board", Some("A test board"), Some("🧩"), true),
        ("Another Board", "custom-slug", None, None, false),
    ];

    for (dto, expected) in dtos.iter().zip(expectations.iter()) {
        assert!(dto.validate().is_ok(), "DTO should be valid: {:?}", dto);
        let db_item = NewBoardDb::from(dto);
        assert_eq!(db_item.name, expected.0);
        assert_eq!(db_item.slug, expected.1);
        assert_eq!(db_item.description, expected.2);
        assert_eq!(db_item.icon, expected.3);
        assert_eq!(db_item.is_public, expected.4);
    }
}

#[test]
fn test_create_dto_validation() {
    let invalid_dtos = vec![
        NewBoardItem { base: NewItemFields { name: "".into(), slug: None, description: None, icon: None, is_public: None } },
        NewBoardItem { base: NewItemFields { name: "A".repeat(101), slug: None, description: None, icon: None, is_public: None } },
        NewBoardItem { base: NewItemFields { name: "Valid Name".into(), slug: Some("Invalid Slug!".into()), description: None, icon: None, is_public: None } },
    ];

    let expected_errors = vec![
        "name: Validation error: length",
        "name: Validation error: length",
        "slug: Validation error: slug_format",
    ];

    for (dto, expected_error) in invalid_dtos.iter().zip(expected_errors.iter()) {
        let validation = dto.validate();
        assert!(validation.is_err(), "DTO should be invalid: {:?}", dto);
        assert!(validation.err().unwrap().to_string().contains(expected_error));
    }
}

#[test]
fn test_patch_dto_to_db_conversion_positives() {
    let dtos = vec![
        PatchBoardItem { base: PatchItemFields { name: Some("Updated Name".into()), description: Some(Some("Updated description".into())), icon: Some(Some("🧩".into())), is_public: Some(true) } },
        PatchBoardItem { base: PatchItemFields { name: None, description: Some(None), icon: Some(None), is_public: None } },
    ];

    let expected_dbs = vec![
        PatchBoardDb { name: Some("Updated Name"), description: Some(Some("Updated description")), icon: Some(Some("🧩")), is_public: Some(true) },
        PatchBoardDb { name: None, description: Some(None), icon: Some(None), is_public: None },
    ];

    for (dto, expected) in dtos.iter().zip(expected_dbs.iter()) {
        assert!(dto.validate().is_ok(), "DTO should be valid: {:?}", dto);
        let db_item = PatchBoardDb::from(dto);
        assert_eq!(db_item.name, expected.name);
        assert_eq!(db_item.description, expected.description);
        assert_eq!(db_item.icon, expected.icon);
        assert_eq!(db_item.is_public, expected.is_public);
    }
}

#[test]
fn test_patch_dto_validation() {
    let invalid_dtos = vec![
        PatchBoardItem { base: PatchItemFields { name: Some("".into()), description: None, icon: None, is_public: None } },
        PatchBoardItem { base: PatchItemFields { name: Some("A".repeat(101)), description: None, icon: None, is_public: None } },
    ];

    for dto in invalid_dtos.iter() {
        let validation = dto.validate();
        assert!(validation.is_err(), "DTO should be invalid: {:?}", dto);
    }
}

#[test]
fn test_board_db_to_api_conversion() {
    let db_items = vec![
        BoardDb { id: 1, name: "Test Board".into(), slug: "test-board".into(), description: Some("A test board".into()), icon: Some("🧩".into()), is_public: true },
        BoardDb { id: 2, name: "Another Board".into(), slug: "another-board".into(), description: None, icon: None, is_public: false },
    ];

    let expected = vec![
        Board { id: 1, name: "Test Board".into(), slug: "test-board".into(), description: Some("A test board".into()), icon: Some("🧩".into()), is_public: true },
        Board { id: 2, name: "Another Board".into(), slug: "another-board".into(), description: None, icon: None, is_public: false },
    ];

    for (db, exp) in db_items.into_iter().zip(expected.into_iter()) {
        let api_item = Board::from(db);
        assert_eq!(api_item.id, exp.id);
        assert_eq!(api_item.name, exp.name);
        assert_eq!(api_item.slug, exp.slug);
        assert_eq!(api_item.description, exp.description);
        assert_eq!(api_item.icon, exp.icon);
        assert_eq!(api_item.is_public, exp.is_public);
    }
}

#[test]
fn build_set_none() {
    let set = build_set(&vec![(false, "name = ?"), (false, "icon = ?")]);
    assert!(set.is_empty());
}

#[test]
fn build_set_some() {
    let set = build_set(&vec![(true, "name = ?"), (false, "icon = ?"), (true, "is_public = ?")]);
    assert_eq!(set, "name = ?, is_public = ?");
}

fn texts(binds: &[SqlValue]) -> Vec<String> {
    binds.iter().map(|b| format!("{:?}", b)).collect()
}

#[test]
fn board_listing_statements() {
    let store = BoardStore::new();
    let ids = vec![3i64, -4];
    let lister: QueryLister = QueryLister {
        filter: Some(QueryFilter { access: Some("a@b"), filter: None, ids: Some(&ids), search: Some("x") }),
        pager: QueryPager { limit: 10, offset: Some(20) },
    };
    let q = store.get_items_query(&lister);
    assert_eq!(
        q.sql,
        "SELECT b.id, b.name, b.slug, b.description, b.icon, b.is_public FROM board b WHERE (b.is_public = 1 OR EXISTS (SELECT 1 FROM board_access_roles bar WHERE bar.board_id = b.id AND bar.address = ?)) AND (b.name LIKE ? OR b.description LIKE ?) AND b.id IN (3, -4) LIMIT 10 OFFSET 20"
    );
    assert_eq!(q.binds, vec![SqlValue::Text("a@b".into()), SqlValue::Text("%x%".into()), SqlValue::Text("%x%".into())]);

    let plain: QueryLister = QueryLister { filter: None, pager: QueryPager { limit: 100, offset: None } };
    let q = store.get_items_query(&plain);
    assert_eq!(q.sql, "SELECT b.id, b.name, b.slug, b.description, b.icon, b.is_public FROM board b LIMIT 100");
    assert!(q.binds.is_empty());

    let public: QueryLister = QueryLister {
        filter: Some(QueryFilter { access: None, filter: None, ids: None, search: None }),
        pager: QueryPager { limit: 5, offset: None },
    };
    let q = store.get_items_query(&public);
    assert_eq!(q.sql, "SELECT b.id, b.name, b.slug, b.description, b.icon, b.is_public FROM board b WHERE b.is_public = 1 LIMIT 5");
}

#[test]
fn board_row_statements() {
    let store = BoardStore::new();
    let item = NewBoardDb { name: "N", slug: "n".to_string(), description: None, icon: Some("i"), is_public: true };
    let q = store.add_item_query(&item);
    assert_eq!(q.sql, "INSERT INTO board (name, slug, description, icon, is_public) VALUES (?, ?, ?, ?, ?) RETURNING id, name, slug, description, icon, is_public");
    assert_eq!(texts(&q.binds), vec!["Text(\"N\")", "Text(\"n\")", "Null", "Text(\"i\")", "Bool(true)"]);

    let q = store.get_item_query(9, None);
    assert_eq!(q.sql, "SELECT id, name, slug, description, icon, is_public FROM board WHERE id = ? AND is_public = 1");
    assert_eq!(q.binds, vec![SqlValue::Int(9)]);
    let q = store.get_item_query(9, Some("me"));
    assert!(q.sql.contains("bar.role IN ('owner', 'manage', 'edit', 'view')"));
    assert_eq!(q.binds, vec![SqlValue::Int(9), SqlValue::Text("me".into())]);

    let patch = PatchBoardDb { name: Some("X"), description: Some(None), icon: None, is_public: Some(false) };
    let q = store.update_item_query(4, &patch);
    assert_eq!(q.sql, "UPDATE board SET name = ?, description = ?, is_public = ? WHERE id = ? RETURNING id, name, slug, description, icon, is_public");
    assert_eq!(q.binds, vec![SqlValue::Text("X".into()), SqlValue::Null, SqlValue::Bool(false), SqlValue::Int(4)]);
    let empty = PatchBoardDb { name: None, description: None, icon: None, is_public: None };
    let q = store.update_item_query(4, &empty);
    assert_eq!(q.sql, "SELECT id, name, slug, description, icon, is_public FROM board WHERE id = ?");
    assert_eq!(q.binds, vec![SqlValue::Int(4)]);

    let q = store.delete_item_query(4);
    assert_eq!(q.sql, "DELETE FROM board WHERE id = ? RETURNING id, name, description, icon, is_public, slug");
}

#[test]
fn board_access_rules() {
    match check_update_access(0) {
        Err(ModelError::Forbidden(m)) => assert_eq!(m, "You are not allowed to update this board"),
        _ => panic!("expected forbidden"),
    }
    assert!(check_update_access(2).is_ok());
    match check_delete_access(0) {
        Err(ModelError::Forbidden(m)) => assert_eq!(m, "You are not allowed to delete this board"),
        _ => panic!("expected forbidden"),
    }
    assert!(check_delete_access(1).is_ok());
    assert_eq!(update_roles(), vec!["owner", "manage"]);
    assert_eq!(delete_roles(), vec!["owner", "manage"]);
}

#[test]
fn package_statements() {
    let store = PackageStore::new();
    let q = store.get_item_query(5, Some("me"));
    assert_eq!(q.sql, "SELECT p.id, p.name, p.slug, p.description, p.icon, p.is_public FROM package p WHERE (p.is_public = 1 OR EXISTS (SELECT 1 FROM package_access_roles pa WHERE pa.package_id = p.id AND pa.address = ?)) AND p.id = ?");
    assert_eq!(q.binds, vec![SqlValue::Text("me".into()), SqlValue::Int(5)]);
    let q = store.get_item_query(5, None);
    assert_eq!(q.sql, "SELECT p.id, p.name, p.slug, p.description, p.icon, p.is_public FROM package p WHERE p.is_public = 1 AND p.id = ?");

    let empty = PatchPackageDb { name: None, description: None, icon: None, is_public: None };
    match store.update_item_query(1, &empty) {
        Err(ModelError::BadRequest(m)) => assert_eq!(m, "No fields to update in package item"),
        _ => panic!("expected a bad request"),
    }
    let patch = PatchPackageDb { name: None, description: None, icon: Some(Some("ic")), is_public: None };
    let q = store.update_item_query(1, &patch).unwrap();
    assert_eq!(q.sql, "UPDATE package SET icon = ? WHERE id = ? RETURNING id, name, slug, description, icon, is_public");
    assert_eq!(q.binds, vec![SqlValue::Text("ic".into()), SqlValue::Int(1)]);

    let ids: Vec<i64> = vec![];
    let lister: QueryLister = QueryLister {
        filter: Some(QueryFilter { access: None, filter: None, ids: Some(&ids), search: None }),
        pager: QueryPager { limit: 0, offset: Some(-1) },
    };
    let q = store.get_items_query(&lister);
    assert_eq!(q.sql, "SELECT p.id, p.name, p.slug, p.description, p.icon, p.is_public FROM package p WHERE p.is_public = 1 AND p.id IN () LIMIT 0 OFFSET -1");
}

#[test]
fn package_conversions() {
    let dto = NewPackageItem { base: NewItemFields { name: "My Pack".into(), slug: None, description: None, icon: None, is_public: Some(true) } };
    assert!(dto.validate().is_ok());
    let db = NewPackageDb::from(&dto);
    assert_eq!(db.slug, "my-pack");
    assert!(db.is_public);
    let patch = PatchPackageItem { base: PatchItemFields { name: Some("ab".into()), description: None, icon: None, is_public: None } };
    assert!(patch.validate().is_err());
    let p = PatchPackageDb::from(&patch);
    assert_eq!(p.name, Some("ab"));
    let row = PackageDb { id: 3, name: "P".into(), slug: "p".into(), description: None, icon: None, is_public: false };
    let api = Package::from(row);
    assert_eq!((api.id, api.name.as_str(), api.is_public), (3, "P", false));
}

#[test]
fn listers_take_the_session() {
    let params: ListParams = ListParams {
        filter: Some(ListFilter { filter: None, ids: Some(vec![1, 2]), search: Some("q".to_string()) }),
        pager: None,
    };
    let l = session_lister(&params, Some("me@x"));
    assert_eq!(l.pager.limit, 100);
    assert_eq!(l.pager.offset, None);
    let f = l.filter.unwrap();
    assert_eq!(f.access, Some("me@x"));
    assert_eq!(f.ids, Some(&vec![1, 2]));
    assert_eq!(f.search, Some("q"));

    let bare: ListParams = ListParams { filter: None, pager: Some(QueryPager { limit: 7, offset: Some(3) }) };
    let l = session_lister(&bare, None);
    assert_eq!(l.pager.limit, 7);
    let anonymous = BoardStore::new().get_items_query(&l);
    assert_eq!(anonymous.sql, "SELECT b.id, b.name, b.slug, b.description, b.icon, b.is_public FROM board b WHERE b.is_public = 1 LIMIT 7 OFFSET 3");
    assert!(anonymous.binds.is_empty());
    assert!(l.filter.unwrap().access.is_none());
    let l = session_lister(&bare, Some("me@x"));
    assert_eq!(l.filter.unwrap().access, Some("me@x"));
    let l = QueryLister::from_params(&bare);
    assert!(l.filter.is_none());
}
