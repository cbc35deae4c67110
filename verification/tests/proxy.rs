use slum::db::{Database, DomainAlias, Server, ServerRecord, Tenant};
use slum::error::ErrorKind;
use slum::proxy::{
    extract_tenant_from_host, forward, forward_headers, handle_request, is_active, plan_request,
    resolve_host, strip_port, upstream_url, Header, ProxyError,
};

fn record(id: &str, name: &str, address: &str) -> ServerRecord {
    ServerRecord {
        id: id.to_string(),
        name: name.to_string(),
        address: address.to_string(),
        created_at: "2024-01-01T00:00:00+00:00".to_string(),
    }
}

fn tenant(id: &str, server_id: &str, status: &str) -> Tenant {
    Tenant {
        id: id.to_string(),
        server_id: server_id.to_string(),
        config: None,
        status: status.to_string(),
        created_at: "2024-01-02T00:00:00+00:00".to_string(),
    }
}

fn server(id: &str, address: &str) -> Server {
    Server {
        id: id.to_string(),
        name: "server-1".to_string(),
        address: address.to_string(),
        tenant_count: 1,
        created_at: "2024-01-01T00:00:00+00:00".to_string(),
    }
}

fn alias(domain: &str, tenant_id: &str) -> DomainAlias {
    DomainAlias { domain: domain.to_string(), tenant_id: tenant_id.to_string() }
}

fn header(name: &str, value: &str) -> Header {
    Header { name: name.to_string(), value: value.as_bytes().to_vec() }
}

fn fleet() -> Database {
    Database::from_rows(
        vec![record("s1", "server-1", "10.0.0.1:9000")],
        vec![
            tenant("romneys", "s1", "active"),
            tenant("smiths", "s1", "suspended"),
            tenant("lost", "s9", "active"),
        ],
        vec![
            alias("ourfam.lol", "romneys"),
            alias("old.example.com", "departed"),
            alias("lost.org", "lost"),
        ],
    )
}

#[test]
fn test_extract_tenant() {
    assert_eq!(
        extract_tenant_from_host("romneys.ourfam.lol"),
        Some("romneys".to_string())
    );
    assert_eq!(
        extract_tenant_from_host("smiths.example.com"),
        Some("smiths".to_string())
    );
    assert_eq!(
        extract_tenant_from_host("romneys.ourfam.lol:8080"),
        Some("romneys".to_string())
    );
    assert_eq!(
        extract_tenant_from_host("romneys.localhost"),
        Some("romneys".to_string())
    );
    assert_eq!(extract_tenant_from_host("localhost:8080"), None);
    assert_eq!(extract_tenant_from_host("ourfam.lol"), None);
}

#[test]
fn extract_tenant_edge_cases() {
    assert_eq!(extract_tenant_from_host(""), None);
    assert_eq!(extract_tenant_from_host("localhost"), None);
    assert_eq!(extract_tenant_from_host("a.b.c.d"), Some("a".to_string()));
    assert_eq!(extract_tenant_from_host("romneys.localhost:3000"), Some("romneys".to_string()));
    assert_eq!(extract_tenant_from_host("romneys.localhostx"), None);
    assert_eq!(extract_tenant_from_host("romneys.Localhost"), None);
    assert_eq!(extract_tenant_from_host(".localhost"), Some("".to_string()));
    assert_eq!(extract_tenant_from_host("..") , Some("".to_string()));
    assert_eq!(extract_tenant_from_host("a.b:c.d"), None);
    assert_eq!(extract_tenant_from_host(":a.b.c"), None);
    assert_eq!(extract_tenant_from_host("münchen.example.com"), Some("münchen".to_string()));
}

#[test]
fn strip_port_keeps_what_stands_before_the_first_colon() {
    assert_eq!(strip_port("ourfam.lol:8080"), "ourfam.lol");
    assert_eq!(strip_port("ourfam.lol"), "ourfam.lol");
    assert_eq!(strip_port("a:b:c"), "a");
    assert_eq!(strip_port(":80"), "");
    assert_eq!(strip_port(""), "");
}

#[test]
fn host_label_resolves_to_tenant_and_server() {
    let db = fleet();
    let (t, s) = resolve_host(&db, "romneys.example.com:8080").unwrap();
    assert_eq!(t.id, "romneys");
    assert_eq!(s.id, "s1");
    assert_eq!(s.tenant_count, 2);
}

#[test]
fn host_without_label_falls_back_to_the_alias() {
    let db = fleet();
    let (t, s) = resolve_host(&db, "ourfam.lol:8080").unwrap();
    assert_eq!(t.id, "romneys");
    assert_eq!(s.address, "10.0.0.1:9000");
}

#[test]
fn unknown_label_falls_back_to_the_alias() {
    let mut db = fleet();
    db.remove_tenant("nobody");
    let db = Database::from_rows(
        vec![record("s1", "server-1", "10.0.0.1:9000")],
        vec![tenant("romneys", "s1", "active")],
        vec![alias("www.ourfam.lol", "romneys")],
    );
    let (t, _) = resolve_host(&db, "www.ourfam.lol").unwrap();
    assert_eq!(t.id, "romneys");
}

#[test]
fn host_without_tenant_or_alias_is_a_bad_request() {
    let db = fleet();
    let err = resolve_host(&db, "localhost:8080").unwrap_err();
    assert_eq!(err, ProxyError::NoTenant);
    assert_eq!(err.status_code(), 400);
    assert_eq!(err.kind(), ErrorKind::BadRequest);
    assert_eq!(
        err.message(),
        "No tenant specified. Use subdomain like: tenant.yourdomain.com"
    );
}

#[test]
fn unknown_tenant_is_not_found() {
    let db = fleet();
    let err = resolve_host(&db, "nobody.example.com").unwrap_err();
    assert_eq!(err, ProxyError::TenantNotFound("nobody".to_string()));
    assert_eq!(err.status_code(), 404);
    assert_eq!(err.kind(), ErrorKind::NotFound);
    assert_eq!(err.message(), "Tenant not found: nobody");
}

#[test]
fn alias_of_a_departed_tenant_is_not_found() {
    let db = fleet();
    let err = resolve_host(&db, "old.example.com").unwrap_err();
    assert_eq!(err, ProxyError::TenantNotFound("old".to_string()));
    let db = Database::from_rows(vec![], vec![], vec![alias("gone.org", "departed")]);
    let err = resolve_host(&db, "gone.org").unwrap_err();
    assert_eq!(err, ProxyError::TenantNotFound("departed".to_string()));
}

#[test]
fn dangling_server_is_an_internal_error() {
    let db = fleet();
    let err = resolve_host(&db, "lost.example.com").unwrap_err();
    assert_eq!(err, ProxyError::DirectoryFault);
    assert_eq!(err.status_code(), 500);
    assert_eq!(err.kind(), ErrorKind::InternalInconsistency);
    assert_eq!(err.message(), "Database error");
    assert_eq!(resolve_host(&db, "lost.org").unwrap_err(), ProxyError::DirectoryFault);
}

#[test]
fn upstream_url_passes_path_and_query_through() {
    assert_eq!(upstream_url("10.0.0.1:9000", "/a/b", None), "http://10.0.0.1:9000/a/b");
    assert_eq!(
        upstream_url("10.0.0.1:9000", "/romneys/../x//y", Some("q=1&r=%20")),
        "http://10.0.0.1:9000/romneys/../x//y?q=1&r=%20"
    );
    assert_eq!(upstream_url("h:1", "/", Some("")), "http://h:1/?");
    assert_eq!(upstream_url("h:1", "", None), "http://h:1");
}

#[test]
fn is_active_knows_one_status() {
    assert!(is_active("active"));
    assert!(!is_active("suspended"));
    assert!(!is_active("Active"));
    assert!(!is_active(""));
}

#[test]
fn client_tenant_header_is_replaced() {
    let inbound = vec![
        header("host", "romneys.example.com"),
        header("x-tenant-id", "smiths"),
        header("accept", "text/html"),
        header("X-Tenant-Id", "admin"),
        header("x-tenant-idx", "kept"),
        header("cookie", "a=b"),
    ];
    let out = forward_headers(&inbound, "romneys");
    assert_eq!(
        out,
        vec![
            header("accept", "text/html"),
            header("x-tenant-idx", "kept"),
            header("cookie", "a=b"),
            header("X-Tenant-ID", "romneys"),
        ]
    );
}

#[test]
fn host_header_is_dropped_whatever_its_case() {
    let inbound = vec![header("Host", "a"), header("HOST", "b"), header("hosts", "c")];
    let out = forward_headers(&inbound, "t");
    assert_eq!(out, vec![header("hosts", "c"), header("X-Tenant-ID", "t")]);
    assert_eq!(forward_headers(&vec![], "t"), vec![header("X-Tenant-ID", "t")]);
}

#[test]
fn header_values_are_passed_on_byte_for_byte() {
    let raw = Header { name: "x-raw".to_string(), value: vec![0xff, 0x00, 0x80] };
    let out = forward_headers(&vec![Header { name: "x-raw".to_string(), value: vec![0xff, 0x00, 0x80] }], "t");
    assert_eq!(out[0], raw);
    let out = forward_headers(&vec![], "münchen");
    assert_eq!(out[0].value, "münchen".as_bytes().to_vec());
}

#[test]
fn suspended_tenant_gets_503_and_nothing_is_forwarded() {
    let db = fleet();
    let err = handle_request(&db, "smiths.example.com", "/", None, &vec![]).unwrap_err();
    assert_eq!(
        err,
        ProxyError::TenantInactive {
            tenant_id: "smiths".to_string(),
            status: "suspended".to_string()
        }
    );
    assert_eq!(err.status_code(), 503);
    assert_eq!(err.kind(), ErrorKind::InvalidState);
    assert_eq!(err.message(), "Tenant smiths is suspended");
    let t = tenant("smiths", "s1", "suspended");
    let err = forward(&t, "http://h:1/".to_string(), false, &vec![]).unwrap_err();
    assert_eq!(err.status_code(), 503);
}

#[test]
fn active_tenant_is_forwarded() {
    let db = fleet();
    let inbound = vec![header("host", "romneys.example.com"), header("x-tenant-id", "smiths")];
    let up = handle_request(&db, "romneys.example.com", "/api/x", Some("a=1"), &inbound).unwrap();
    assert_eq!(up.url, "http://10.0.0.1:9000/api/x?a=1");
    assert_eq!(up.headers, vec![header("X-Tenant-ID", "romneys")]);
}

#[test]
fn alias_request_carries_the_resolved_tenant_id() {
    let db = fleet();
    let inbound = vec![header("x-tenant-id", "ourfam")];
    let up = handle_request(&db, "ourfam.lol", "/", None, &inbound).unwrap();
    assert_eq!(up.url, "http://10.0.0.1:9000/");
    assert_eq!(up.headers, vec![header("X-Tenant-ID", "romneys")]);
}

#[test]
fn handle_request_passes_resolution_errors_on() {
    let db = fleet();
    assert_eq!(
        handle_request(&db, "localhost", "/", None, &vec![]).unwrap_err().status_code(),
        400
    );
    assert_eq!(
        handle_request(&db, "nobody.example.com", "/", None, &vec![]).unwrap_err().status_code(),
        404
    );
    assert_eq!(
        handle_request(&db, "lost.example.com", "/", None, &vec![]).unwrap_err().status_code(),
        500
    );
}

#[test]
fn invalid_upstream_url_is_an_internal_error() {
    let t = tenant("romneys", "s1", "active");
    let err = plan_request(&t, &server("s1", "bad host:9000"), "/", None, &vec![]).unwrap_err();
    assert_eq!(err, ProxyError::InvalidUpstreamUrl);
    assert_eq!(err.status_code(), 500);
    assert_eq!(err.message(), "Invalid upstream URL");
    let ok = plan_request(&t, &server("s1", "good-host:9000"), "/", None, &vec![]).unwrap();
    assert_eq!(ok.url, "http://good-host:9000/");
}

#[test]
fn forward_decides_on_the_url_verdict_it_is_given() {
    let t = tenant("romneys", "s1", "active");
    let err = forward(&t, "http://h:1/".to_string(), false, &vec![]).unwrap_err();
    assert_eq!(err, ProxyError::InvalidUpstreamUrl);
    let ok = forward(&t, "http://h:1/".to_string(), true, &vec![header("a", "b")]).unwrap();
    assert_eq!(ok.url, "http://h:1/");
    assert_eq!(ok.headers, vec![header("a", "b"), header("X-Tenant-ID", "romneys")]);
}

#[test]
fn tenant_id_that_cannot_be_a_header_is_an_internal_error() {
    let t = tenant("rom\nneys", "s1", "active");
    let err = forward(&t, "http://h:1/".to_string(), true, &vec![]).unwrap_err();
    assert_eq!(err, ProxyError::InvalidRequest);
    assert_eq!(err.status_code(), 500);
    assert_eq!(err.message(), "Failed to build request");
    let del = tenant("a\u{7f}", "s1", "active");
    assert_eq!(
        forward(&del, "http://h:1/".to_string(), true, &vec![]).unwrap_err(),
        ProxyError::InvalidRequest
    );
    let tab = tenant("a\tb é", "s1", "active");
    assert!(forward(&tab, "http://h:1/".to_string(), true, &vec![]).is_ok());
}

#[test]
fn unreachable_backend_is_a_bad_gateway() {
    let err = ProxyError::UpstreamUnreachable("connection refused".to_string());
    assert_eq!(err.status_code(), 502);
    assert_eq!(err.kind(), ErrorKind::UpstreamUnreachable);
    assert_eq!(err.message(), "Failed to reach tenant server: connection refused");
}

#[test]
fn traffic_goes_to_the_server_that_the_tenant_names() {
    let db = Database::from_rows(
        vec![record("x", "y", "10.0.0.1:9000"), record("y", "z", "10.0.0.2:9000")],
        vec![tenant("t", "y", "active")],
        vec![],
    );
    let (t, s) = resolve_host(&db, "t.example.com").unwrap();
    assert_eq!(s.id, t.server_id);
    let up = handle_request(&db, "t.example.com", "/", None, &vec![]).unwrap();
    assert_eq!(up.url, "http://10.0.0.2:9000/");
}

#[test]
fn a_server_name_equal_to_a_missing_id_is_an_internal_error() {
    let db = Database::from_rows(
        vec![record("x", "gone", "10.0.0.1:9000")],
        vec![tenant("t", "gone", "active")],
        vec![],
    );
    let err = handle_request(&db, "t.example.com", "/", None, &vec![]).unwrap_err();
    assert_eq!(err, ProxyError::DirectoryFault);
    assert_eq!(err.status_code(), 500);
}
