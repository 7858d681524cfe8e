use wakecore::connection::{Connection, ConnectionConfig};
use wakecore::ident::ConnectionId;
use wakecore::json::Json;
use wakecore::store::{quarantine_file_name, ConfigStorage, StorageError};

fn website(name: &str, order: i32) -> Connection {
    Connection::new(
        name.to_string(),
        ConnectionConfig::Website { url: "http://example.com".to_string(), check_path: None },
        order,
    )
}

fn record_json(id_hex: &str, name: &str, order: i32) -> Json {
    Json::Obj(vec![
        ("id".to_string(), Json::Str(id_hex.to_string())),
        ("name".to_string(), Json::Str(name.to_string())),
        ("order".to_string(), Json::Num(order.to_string())),
        (
            "config".to_string(),
            Json::Obj(vec![
                ("type".to_string(), Json::Str("website".to_string())),
                ("url".to_string(), Json::Str("http://example.com".to_string())),
            ]),
        ),
        ("createdAt".to_string(), Json::Str("2024-01-01T00:00:00+00:00".to_string())),
        ("updatedAt".to_string(), Json::Str("2024-01-01T00:00:00+00:00".to_string())),
    ])
}

#[test]
fn test_save_load_round_trip_by_id() {
    let mut store = ConfigStorage::new();
    let a = website("alpha", 0);
    let b = website("beta", 1);
    let ids = vec![a.id, b.id];
    store.save_connection(a);
    store.save_connection(b);

    let rendered = store.save_connections();
    let (loaded, rejected) = ConfigStorage::load_connections(rendered);

    assert!(rejected.is_empty());
    assert_eq!(loaded.connections.len(), 2);
    assert_eq!(loaded.connections[0].id, ids[0]);
    assert_eq!(loaded.connections[1].id, ids[1]);
    assert_eq!(loaded.connections[0].name, "alpha");
    assert_eq!(loaded.connections[1].name, "beta");
}

#[test]
fn test_corruption_recovery_two_valid_one_invalid() {
    let good1 = record_json("11111111-1111-1111-1111-111111111111", "one", 0);
    let good2 = record_json("22222222-2222-2222-2222-222222222222", "two", 1);
    let bad = Json::Obj(vec![("garbage".to_string(), Json::Null)]);
    let values = vec![good1, bad, good2];

    let (loaded, rejected) = ConfigStorage::load_connections(values);

    assert_eq!(loaded.connections.len(), 2);
    assert_eq!(loaded.connections[0].name, "one");
    assert_eq!(loaded.connections[1].name, "two");
    assert_eq!(rejected.len(), 1);
    assert!(matches!(&rejected[0], Json::Obj(f) if f.len() == 1 && f[0].0 == "garbage"));
}

#[test]
fn test_load_accepts_ssh_record_with_defaults() {
    let ssh = Json::Obj(vec![
        ("id".to_string(), Json::Str("33333333333333333333333333333333".to_string())),
        ("name".to_string(), Json::Str("box".to_string())),
        (
            "config".to_string(),
            Json::Obj(vec![
                ("type".to_string(), Json::Str("ssh".to_string())),
                ("host".to_string(), Json::Str("box.local".to_string())),
                ("port".to_string(), Json::Num("22".to_string())),
                ("username".to_string(), Json::Str("root".to_string())),
            ]),
        ),
        ("createdAt".to_string(), Json::Str("t".to_string())),
        ("updatedAt".to_string(), Json::Str("t".to_string())),
    ]);
    let (loaded, rejected) = ConfigStorage::load_connections(vec![ssh]);
    assert!(rejected.is_empty());
    assert_eq!(loaded.connections.len(), 1);
    let c = &loaded.connections[0];
    // absent order and wolEnabled fall back to their defaults
    assert_eq!(c.order, 0);
    match &c.config {
        ConnectionConfig::Ssh { host, port, username, wol_enabled, mac_address, broadcast_addr } => {
            assert_eq!(host, "box.local");
            assert_eq!(*port, 22u16);
            assert_eq!(username, "root");
            assert!(!*wol_enabled);
            assert!(mac_address.is_none());
            assert!(broadcast_addr.is_none());
        },
        _ => panic!("expected an ssh config"),
    }
}

#[test]
fn test_load_rejects_bad_port_and_bad_id() {
    let bad_port = Json::Obj(vec![
        ("id".to_string(), Json::Str("44444444444444444444444444444444".to_string())),
        ("name".to_string(), Json::Str("box".to_string())),
        (
            "config".to_string(),
            Json::Obj(vec![
                ("type".to_string(), Json::Str("ssh".to_string())),
                ("host".to_string(), Json::Str("h".to_string())),
                ("port".to_string(), Json::Num("70000".to_string())),
                ("username".to_string(), Json::Str("u".to_string())),
            ]),
        ),
        ("createdAt".to_string(), Json::Str("t".to_string())),
        ("updatedAt".to_string(), Json::Str("t".to_string())),
    ]);
    let bad_id = record_json("zzz", "nope", 0);
    let (loaded, rejected) = ConfigStorage::load_connections(vec![bad_port, bad_id]);
    assert_eq!(loaded.connections.len(), 0);
    assert_eq!(rejected.len(), 2);
}

#[test]
fn test_upsert_replaces_in_place() {
    let mut store = ConfigStorage::new();
    let a = website("alpha", 0);
    let b = website("beta", 1);
    let a_id = a.id;
    store.save_connection(a);
    store.save_connection(b);
    assert_eq!(store.connections.len(), 2);

    let mut replacement = website("alpha-renamed", 5);
    replacement.id = a_id;
    store.save_connection(replacement);

    assert_eq!(store.connections.len(), 2);
    assert_eq!(store.connections[0].id, a_id);
    assert_eq!(store.connections[0].name, "alpha-renamed");
    assert_eq!(store.connections[0].order, 5);
}

#[test]
fn test_upsert_appends_new_id() {
    let mut store = ConfigStorage::new();
    store.save_connection(website("alpha", 0));
    let fresh = website("new", 9);
    let fresh_id = fresh.id;
    store.save_connection(fresh);
    assert_eq!(store.connections.len(), 2);
    assert_eq!(store.connections[1].id, fresh_id);
}

#[test]
fn test_delete_present_and_absent() {
    let mut store = ConfigStorage::new();
    let a = website("alpha", 0);
    let a_id = a.id;
    store.save_connection(a);
    store.save_connection(website("beta", 1));

    assert!(store.delete_connection(a_id));
    assert_eq!(store.connections.len(), 1);
    assert_eq!(store.connections[0].name, "beta");

    assert!(!store.delete_connection(a_id));
    assert_eq!(store.connections.len(), 1);
}

#[test]
fn test_reorder_sets_listed_and_keeps_others() {
    let mut store = ConfigStorage::new();
    let a = website("a", 10);
    let b = website("b", 20);
    let c = website("c", 30);
    let (a_id, b_id, c_id) = (a.id, b.id, c.id);
    store.save_connection(a);
    store.save_connection(b);
    store.save_connection(c);

    let unknown = ConnectionId::new(0xdead);
    store.reorder_connections(&vec![c_id, a_id, unknown]);

    assert_eq!(store.connections[0].id, a_id);
    assert_eq!(store.connections[0].order, 1);
    assert_eq!(store.connections[1].id, b_id);
    assert_eq!(store.connections[1].order, 20);
    assert_eq!(store.connections[2].id, c_id);
    assert_eq!(store.connections[2].order, 0);
}

#[test]
fn test_get_connection() {
    let mut store = ConfigStorage::new();
    let a = website("alpha", 0);
    let a_id = a.id;
    store.save_connection(a);
    let got = store.get_connection(a_id).unwrap();
    assert_eq!(got.id, a_id);
    assert_eq!(got.name, "alpha");
    assert!(store.get_connection(ConnectionId::new(0xbeef)).is_none());
}

#[test]
fn test_id_parse_and_format() {
    let id = ConnectionId::parse("AABBCCDD-EEFF-0011-2233-445566778899").unwrap();
    assert_eq!(id.to_canonical_string(), "aabbccdd-eeff-0011-2233-445566778899");

    let simple = ConnectionId::parse("aabbccddeeff00112233445566778899").unwrap();
    assert_eq!(simple, id);

    assert!(ConnectionId::parse("not-an-id").is_none());
    assert!(ConnectionId::parse("aabbccdd_eeff_0011_2233_445566778899").is_none());
    assert!(ConnectionId::parse("").is_none());
}

#[test]
fn test_fresh_ids_are_version_four() {
    let a = website("a", 0);
    let b = website("b", 1);
    assert_ne!(a.id, b.id);
    assert_eq!((a.id.value >> 76) & 0xF, 4);
    assert!(!a.created_at.is_empty());
    assert_eq!(a.created_at, a.updated_at);
}

#[test]
fn test_quarantine_file_name() {
    assert_eq!(quarantine_file_name("20240101000000"), "connections.invalid-20240101000000.json");
}

#[test]
fn test_storage_error_messages() {
    assert_eq!(StorageError::NoConfigDir.message(), "Failed to get config directory");
    assert_eq!(StorageError::Io("denied".to_string()).message(), "IO error: denied");
    assert_eq!(StorageError::Json("bad token".to_string()).message(), "JSON error: bad token");
}
