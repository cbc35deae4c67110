use slum::db::{Database, DomainAlias, ServerRecord, Tenant};
use slum::error::{DirectoryError, ErrorKind};

fn record(id: &str, name: &str, address: &str) -> ServerRecord {
    ServerRecord {
        id: id.to_string(),
        name: name.to_string(),
        address: address.to_string(),
        created_at: "2024-01-01T00:00:00+00:00".to_string(),
    }
}

fn tenant(id: &str, server_id: &str, status: &str) -> Tenant {
    Tenant {
        id: id.to_string(),
        server_id: server_id.to_string(),
        config: None,
        status: status.to_string(),
        created_at: "2024-01-02T00:00:00+00:00".to_string(),
    }
}

fn alias(domain: &str, tenant_id: &str) -> DomainAlias {
    DomainAlias { domain: domain.to_string(), tenant_id: tenant_id.to_string() }
}

#[test]
fn test_add_and_list_servers() {
    let mut db = Database::new();

    let servers = db.list_servers();
    assert!(servers.is_empty());

    let s1 = db.add_server("server-1", "10.0.0.1:9000").unwrap();
    let s2 = db.add_server("server-2", "10.0.0.2:9000").unwrap();

    assert_eq!(s1.name, "server-1");
    assert_eq!(s2.address, "10.0.0.2:9000");

    let servers = db.list_servers();
    assert_eq!(servers.len(), 2);
}

#[test]
fn test_get_server_by_name_and_id() {
    let mut db = Database::new();

    let server = db.add_server("my-server", "10.0.0.1:9000").unwrap();

    let found = db.get_server("my-server").unwrap();
    assert_eq!(found.id, server.id);

    let found = db.get_server(&server.id).unwrap();
    assert_eq!(found.name, "my-server");

    let not_found = db.get_server("nonexistent");
    assert!(not_found.is_none());
}

#[test]
fn test_remove_server() {
    let mut db = Database::new();

    db.add_server("server-1", "10.0.0.1:9000").unwrap();

    db.remove_server("server-1").unwrap();

    let servers = db.list_servers();
    assert!(servers.is_empty());
}

#[test]
fn test_cannot_remove_server_with_tenants() {
    let mut db = Database::new();

    db.add_server("server-1", "10.0.0.1:9000").unwrap();
    db.add_tenant("tenant-1", Some("server-1"), None).unwrap();

    let result = db.remove_server("server-1");
    assert!(result.is_err());
    assert!(result.unwrap_err().message().contains("Cannot remove server"));
}

#[test]
fn test_add_tenant_to_specific_server() {
    let mut db = Database::new();

    db.add_server("server-1", "10.0.0.1:9000").unwrap();
    let s2 = db.add_server("server-2", "10.0.0.2:9000").unwrap();

    let tenant = db.add_tenant("romneys", Some("server-2"), None).unwrap();
    assert_eq!(tenant.server_id, s2.id);
}

#[test]
fn test_add_tenant_auto_balance() {
    let mut db = Database::new();

    db.add_server("server-1", "10.0.0.1:9000").unwrap();
    db.add_server("server-2", "10.0.0.2:9000").unwrap();

    db.add_tenant("tenant-1", None, None).unwrap();
    db.add_tenant("tenant-2", None, None).unwrap();
    db.add_tenant("tenant-3", None, None).unwrap();

    let servers = db.list_servers();
    let counts: Vec<usize> = servers.iter().map(|s| s.tenant_count).collect();
    assert!(counts.iter().all(|&c| c >= 1));
}

#[test]
fn test_add_tenant_no_servers() {
    let mut db = Database::new();

    let result = db.add_tenant("tenant-1", None, None);
    assert!(result.is_err());
    assert!(result.unwrap_err().message().contains("No servers available"));
}

#[test]
fn test_tenant_crud() {
    let mut db = Database::new();

    db.add_server("server-1", "10.0.0.1:9000").unwrap();

    let tenant = db.add_tenant("romneys", None, Some(r#"{"key":"value"}"#)).unwrap();
    assert_eq!(tenant.id, "romneys");
    assert_eq!(tenant.status, "active");

    let found = db.get_tenant("romneys").unwrap();
    assert_eq!(found.config.as_deref(), Some(r#"{"key":"value"}"#));

    let tenants = db.list_tenants();
    assert_eq!(tenants.len(), 1);

    db.remove_tenant("romneys");
    let tenants = db.list_tenants();
    assert!(tenants.is_empty());
}

#[test]
fn test_lookup_tenant() {
    let mut db = Database::new();

    let server = db.add_server("server-1", "10.0.0.1:9000").unwrap();
    db.add_tenant("romneys", None, None).unwrap();

    let (tenant, srv) = db.lookup_tenant("romneys").unwrap().unwrap();
    assert_eq!(tenant.id, "romneys");
    assert_eq!(srv.id, server.id);

    let not_found = db.lookup_tenant("nonexistent").unwrap();
    assert!(not_found.is_none());
}

#[test]
fn new_server_has_a_fresh_id_and_no_tenants() {
    let mut db = Database::new();
    let a = db.add_server("a", "10.0.0.1:9000").unwrap();
    let b = db.add_server("b", "10.0.0.2:9000").unwrap();
    assert_eq!(a.id.chars().count(), 36);
    assert_eq!(b.id.chars().count(), 36);
    assert_ne!(a.id, b.id);
    assert_eq!(a.tenant_count, 0);
    assert!(!a.created_at.is_empty());
    assert!(db.is_consistent());
}

#[test]
fn duplicate_server_name_is_a_conflict() {
    let mut db = Database::new();
    db.add_server("a", "10.0.0.1:9000").unwrap();
    let err = db.add_server("a", "10.0.0.9:9000").unwrap_err();
    assert_eq!(err, DirectoryError::ServerNameTaken("a".to_string()));
    assert_eq!(err.kind(), ErrorKind::Conflict);
    assert_eq!(err.message(), "Server name already exists: a");
    assert_eq!(db.list_servers().len(), 1);
}

#[test]
fn duplicate_server_id_is_a_conflict() {
    let mut db = Database::new();
    db.insert_server("id-1".to_string(), "a", "h:1", "t0".to_string()).unwrap();
    let err = db.insert_server("id-1".to_string(), "b", "h:2", "t1".to_string()).unwrap_err();
    assert_eq!(err, DirectoryError::ServerIdTaken("id-1".to_string()));
    assert_eq!(err.kind(), ErrorKind::Conflict);
    assert_eq!(err.message(), "Server id already exists: id-1");
    assert_eq!(db.list_servers().len(), 1);
}

#[test]
fn insert_server_returns_what_it_stored() {
    let mut db = Database::new();
    let s = db.insert_server("id-1".to_string(), "a", "h:1", "t0".to_string()).unwrap();
    assert_eq!(s.id, "id-1");
    assert_eq!(s.name, "a");
    assert_eq!(s.address, "h:1");
    assert_eq!(s.created_at, "t0");
    assert_eq!(s.tenant_count, 0);
    assert_eq!(db.list_servers(), vec![s]);
}

#[test]
fn servers_are_listed_in_creation_order_with_counts() {
    let mut db = Database::new();
    db.insert_server("id-1".to_string(), "a", "h:1", "t9".to_string()).unwrap();
    db.insert_server("id-2".to_string(), "b", "h:2", "t1".to_string()).unwrap();
    db.insert_tenant("x", Some("b"), None, "t2".to_string()).unwrap();
    db.insert_tenant("y", Some("id-2"), None, "t3".to_string()).unwrap();
    let list = db.list_servers();
    assert_eq!(list.len(), 2);
    assert_eq!(list[0].name, "a");
    assert_eq!(list[0].tenant_count, 0);
    assert_eq!(list[1].name, "b");
    assert_eq!(list[1].tenant_count, 2);
    assert_eq!(db.count_tenants("id-2"), 2);
    assert_eq!(db.count_tenants("b"), 0);
}

#[test]
fn get_server_takes_the_first_that_answers() {
    let db = Database::from_rows(
        vec![record("id-1", "id-2", "h:1"), record("id-2", "b", "h:2")],
        vec![],
        vec![],
    );
    assert_eq!(db.get_server("id-2").unwrap().id, "id-1");
    assert_eq!(db.get_server("b").unwrap().id, "id-2");
}

#[test]
fn remove_unknown_server_is_not_found() {
    let mut db = Database::new();
    let err = db.remove_server("ghost").unwrap_err();
    assert_eq!(err, DirectoryError::ServerNotFound("ghost".to_string()));
    assert_eq!(err.kind(), ErrorKind::NotFound);
    assert_eq!(err.message(), "Server not found: ghost");
}

#[test]
fn remove_busy_server_reports_the_count_and_keeps_the_row() {
    let mut db = Database::new();
    let s = db.add_server("server-1", "10.0.0.1:9000").unwrap();
    db.add_tenant("t1", Some("server-1"), None).unwrap();
    db.add_tenant("t2", Some("server-1"), None).unwrap();
    let err = db.remove_server(&s.id).unwrap_err();
    assert_eq!(err, DirectoryError::ServerHasTenants(2));
    assert_eq!(err.kind(), ErrorKind::Conflict);
    assert_eq!(
        err.message(),
        "Cannot remove server with 2 tenants. Move or remove tenants first."
    );
    assert_eq!(db.list_servers().len(), 1);
    assert_eq!(db.list_tenants().len(), 2);
    db.remove_tenant("t1");
    db.remove_tenant("t2");
    assert_eq!(db.remove_server("server-1"), Ok(()));
    assert!(db.list_servers().is_empty());
}

#[test]
fn add_tenant_to_unknown_server_is_not_found() {
    let mut db = Database::new();
    db.add_server("server-1", "10.0.0.1:9000").unwrap();
    let err = db.add_tenant("t", Some("ghost"), None).unwrap_err();
    assert_eq!(err, DirectoryError::ServerNotFound("ghost".to_string()));
    assert!(db.list_tenants().is_empty());
}

#[test]
fn add_tenant_without_servers_is_a_conflict() {
    let mut db = Database::new();
    let err = db.add_tenant("t", None, None).unwrap_err();
    assert_eq!(err, DirectoryError::NoServersAvailable);
    assert_eq!(err.kind(), ErrorKind::Conflict);
    assert_eq!(err.message(), "No servers available. Add a server first.");
}

#[test]
fn duplicate_tenant_id_is_a_conflict() {
    let mut db = Database::new();
    db.add_server("server-1", "10.0.0.1:9000").unwrap();
    db.add_tenant("t", None, None).unwrap();
    let err = db.add_tenant("t", None, None).unwrap_err();
    assert_eq!(err, DirectoryError::TenantExists("t".to_string()));
    assert_eq!(err.kind(), ErrorKind::Conflict);
    assert_eq!(err.message(), "Tenant already exists: t");
    assert_eq!(db.list_tenants().len(), 1);
}

#[test]
fn missing_server_comes_before_duplicate_tenant() {
    let mut db = Database::new();
    db.add_server("server-1", "10.0.0.1:9000").unwrap();
    db.add_tenant("t", None, None).unwrap();
    let err = db.add_tenant("t", Some("ghost"), None).unwrap_err();
    assert_eq!(err, DirectoryError::ServerNotFound("ghost".to_string()));
}

#[test]
fn placement_fills_every_server_before_any_gets_a_second() {
    let mut db = Database::new();
    let ids: Vec<String> = (0..4)
        .map(|i| db.add_server(&format!("s{}", i), "h:1").unwrap().id)
        .collect();
    for (i, server_id) in ids.iter().enumerate() {
        let t = db.add_tenant(&format!("t{}", i), None, None).unwrap();
        assert_eq!(&t.server_id, server_id);
        let counts: Vec<usize> = db.list_servers().iter().map(|s| s.tenant_count).collect();
        let expected: Vec<usize> = (0..4).map(|k| if k <= i { 1 } else { 0 }).collect();
        assert_eq!(counts, expected);
    }
    let fifth = db.add_tenant("t4", None, None).unwrap();
    assert_eq!(fifth.server_id, ids[0]);
}

#[test]
fn placement_prefers_the_least_loaded_then_the_earliest() {
    let mut db = Database::new();
    db.insert_server("a".to_string(), "sa", "h:1", "t0".to_string()).unwrap();
    db.insert_server("b".to_string(), "sb", "h:2", "t0".to_string()).unwrap();
    db.insert_server("c".to_string(), "sc", "h:3", "t0".to_string()).unwrap();
    db.add_tenant("t1", Some("sa"), None).unwrap();
    db.add_tenant("t2", Some("sa"), None).unwrap();
    db.add_tenant("t3", Some("sb"), None).unwrap();
    assert_eq!(db.add_tenant("t4", None, None).unwrap().server_id, "c");
    assert_eq!(db.add_tenant("t5", None, None).unwrap().server_id, "b");
    assert_eq!(db.add_tenant("t6", None, None).unwrap().server_id, "c");
    assert_eq!(db.add_tenant("t7", None, None).unwrap().server_id, "a");
}

#[test]
fn remove_tenant_removes_its_aliases() {
    let mut db = Database::from_rows(
        vec![record("s1", "server-1", "h:1")],
        vec![tenant("romneys", "s1", "active"), tenant("smiths", "s1", "active")],
        vec![
            alias("romneys.org", "romneys"),
            alias("smiths.org", "smiths"),
            alias("www.romneys.org", "romneys"),
        ],
    );
    assert!(db.is_consistent());
    assert_eq!(db.lookup_by_domain("romneys.org"), Some("romneys".to_string()));
    db.remove_tenant("romneys");
    assert_eq!(db.lookup_by_domain("romneys.org"), None);
    assert_eq!(db.lookup_by_domain("www.romneys.org"), None);
    assert_eq!(db.lookup_by_domain("smiths.org"), Some("smiths".to_string()));
    assert!(db.get_tenant("romneys").is_none());
    assert_eq!(db.list_tenants().len(), 1);
    assert!(db.is_consistent());
}

#[test]
fn remove_absent_tenant_changes_nothing() {
    let mut db = Database::from_rows(
        vec![record("s1", "server-1", "h:1")],
        vec![tenant("smiths", "s1", "active")],
        vec![alias("smiths.org", "smiths")],
    );
    db.remove_tenant("romneys");
    db.remove_tenant("romneys");
    assert_eq!(db.list_tenants().len(), 1);
    assert_eq!(db.lookup_by_domain("smiths.org"), Some("smiths".to_string()));
}

#[test]
fn lookup_by_domain_reads_only_the_alias_table() {
    let db = Database::from_rows(vec![], vec![], vec![alias("gone.org", "gone")]);
    assert_eq!(db.lookup_by_domain("gone.org"), Some("gone".to_string()));
    assert_eq!(db.lookup_by_domain("other.org"), None);
}

#[test]
fn lookup_tenant_reports_a_dangling_server() {
    let db = Database::from_rows(
        vec![record("s1", "server-1", "h:1")],
        vec![tenant("lost", "s9", "active")],
        vec![],
    );
    assert!(!db.is_consistent());
    let err = db.lookup_tenant("lost").unwrap_err();
    assert_eq!(err, DirectoryError::ServerMissingForTenant("lost".to_string()));
    assert_eq!(err.kind(), ErrorKind::InternalInconsistency);
    assert_eq!(err.message(), "Server not found for tenant: lost");
}

#[test]
fn is_consistent_rejects_duplicates() {
    let twice_id =
        Database::from_rows(vec![record("s1", "a", "h:1"), record("s1", "b", "h:2")], vec![], vec![]);
    assert!(!twice_id.is_consistent());
    let twice_name =
        Database::from_rows(vec![record("s1", "a", "h:1"), record("s2", "a", "h:2")], vec![], vec![]);
    assert!(!twice_name.is_consistent());
    let twice_tenant = Database::from_rows(
        vec![record("s1", "a", "h:1")],
        vec![tenant("t", "s1", "active"), tenant("t", "s1", "active")],
        vec![],
    );
    assert!(!twice_tenant.is_consistent());
    let twice_alias = Database::from_rows(
        vec![],
        vec![],
        vec![alias("x.org", "a"), alias("x.org", "b")],
    );
    assert!(!twice_alias.is_consistent());
    assert!(Database::new().is_consistent());
}

#[test]
fn placing_and_removing_in_either_order_keeps_tenants_hosted() {
    let mut first = Database::new();
    first.add_server("only", "h:1").unwrap();
    first.add_tenant("t", None, None).unwrap();
    assert!(first.remove_server("only").is_err());
    assert!(first.lookup_tenant("t").unwrap().is_some());
    assert!(first.is_consistent());

    let mut second = Database::new();
    second.add_server("only", "h:1").unwrap();
    second.remove_server("only").unwrap();
    assert_eq!(second.add_tenant("t", None, None), Err(DirectoryError::NoServersAvailable));
    assert!(second.list_tenants().is_empty());
    assert!(second.is_consistent());
}

#[test]
fn lookup_tenant_joins_by_id_not_by_name() {
    let db = Database::from_rows(
        vec![record("x", "y", "h:1"), record("y", "z", "h:2")],
        vec![tenant("t", "y", "active")],
        vec![],
    );
    assert!(db.is_consistent());
    let (t, s) = db.lookup_tenant("t").unwrap().unwrap();
    assert_eq!(t.id, "t");
    assert_eq!(s.id, "y");
    assert_eq!(s.name, "z");
    assert_eq!(s.address, "h:2");
    assert_eq!(s.tenant_count, 1);
    assert_eq!(db.get_server("y").unwrap().id, "x");

    let mut built = Database::new();
    built.insert_server("x".to_string(), "y", "h:1", "t0".to_string()).unwrap();
    built.insert_server("y".to_string(), "z", "h:2", "t1".to_string()).unwrap();
    let placed = built.insert_tenant("t", Some("z"), None, "t2".to_string()).unwrap();
    assert_eq!(placed.server_id, "y");
    let (_, s) = built.lookup_tenant("t").unwrap().unwrap();
    assert_eq!(s.id, "y");
}

#[test]
fn a_name_does_not_stand_in_for_a_missing_server() {
    let db = Database::from_rows(
        vec![record("x", "gone", "h:1")],
        vec![tenant("t", "gone", "active")],
        vec![],
    );
    assert!(!db.is_consistent());
    assert_eq!(
        db.lookup_tenant("t"),
        Err(DirectoryError::ServerMissingForTenant("t".to_string()))
    );
}
