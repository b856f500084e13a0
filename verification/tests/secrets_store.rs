use qfs::secrets::envelope::{
    derive_kek, generate_dek, generate_salt, open, seal, seal_with, unwrap_dek, wrap_dek,
    wrap_dek_with, KEY_LEN, WRAP_MAGIC,
};
use qfs::command::script::listed;
use qfs::secrets::key::{ConnectionId, ConnectionRecord, CredentialKey, DriverId, Timestamp};
use qfs::secrets::secret::{Secret, SecretError};
use qfs::secrets::store::{
    initialize, list_records, open_row, parse_created_at, seal_row, shown_moment, unlock, ListedRow,
    MetaRow, SealedRow, SecretTables, SqliteSecrets,
};
use rusqlite::{Connection, OptionalExtension};
use std::rc::Rc;

// ---- the envelope ----------------------------------------------------------------------------

#[test]
fn dek_wrap_and_value_seal_round_trip() {
    let salt = generate_salt();
    let kek = derive_kek(b"correct horse battery staple", &salt).unwrap();
    let dek = generate_dek();

    let wrapped = wrap_dek(&kek, &dek).unwrap();
    let unwrapped = unwrap_dek(&kek, &wrapped).unwrap();
    assert_eq!(unwrapped, dek, "the unwrapped DEK matches the original");

    let plaintext = b"ghp_super_secret_token";
    let (nonce, ct) = seal(&dek, plaintext).unwrap();
    let opened = open(&dek, &nonce, &ct).unwrap();
    assert_eq!(opened, plaintext, "the opened value matches the original");

    assert!(
        !ct.windows(plaintext.len()).any(|w| w == plaintext),
        "plaintext leaked into the ciphertext"
    );
}

#[test]
fn equal_plaintexts_seal_to_different_ciphertext() {
    let dek = generate_dek();
    let (n1, c1) = seal(&dek, b"same").unwrap();
    let (n2, c2) = seal(&dek, b"same").unwrap();
    assert!(n1 != n2 || c1 != c2, "nonces (and thus ciphertexts) must differ");
    assert_eq!(open(&dek, &n1, &c1).unwrap(), b"same");
    assert_eq!(open(&dek, &n2, &c2).unwrap(), b"same");
}

#[test]
fn wrong_kek_fails_to_unwrap_without_leaking() {
    let salt = generate_salt();
    let kek = derive_kek(b"right", &salt).unwrap();
    let dek = generate_dek();
    let wrapped = wrap_dek(&kek, &dek).unwrap();

    let wrong = derive_kek(b"wrong", &salt).unwrap();
    let err = unwrap_dek(&wrong, &wrapped).unwrap_err();
    assert_eq!(
        err.message(),
        "envelope crypto operation failed (wrong key or corrupt data)"
    );
}

#[test]
fn tampered_wrap_fails() {
    let salt = generate_salt();
    let kek = derive_kek(b"pass", &salt).unwrap();
    let dek = generate_dek();
    let mut wrapped = wrap_dek(&kek, &dek).unwrap();
    let last = wrapped.len() - 1;
    wrapped[last] ^= 0x01;
    assert!(unwrap_dek(&kek, &wrapped).is_err());
}

#[test]
fn tampered_value_ciphertext_fails() {
    let dek = generate_dek();
    let (nonce, mut ct) = seal(&dek, b"token").unwrap();
    ct[0] ^= 0xff;
    assert!(open(&dek, &nonce, &ct).is_err());
}

#[test]
fn wrong_nonce_length_is_rejected() {
    let dek = generate_dek();
    let (_n, ct) = seal(&dek, b"token").unwrap();
    assert!(open(&dek, &[0u8; 4], &ct).is_err());
}

#[test]
fn unknown_wrap_format_is_an_error() {
    let kek = [3u8; KEY_LEN];
    assert!(unwrap_dek(&kek, b"not-a-wrap").is_err());
    assert!(unwrap_dek(&kek, &WRAP_MAGIC).is_err());
}

#[test]
fn random_material_differs() {
    assert_ne!(generate_dek(), generate_dek());
    assert_ne!(generate_salt(), generate_salt());
    assert_ne!(generate_dek(), [0u8; 32]);
}

#[test]
fn derivation_depends_on_passphrase_and_salt_alone() {
    let a = derive_kek(b"pass", b"saltsalt").unwrap();
    assert_eq!(a, derive_kek(b"pass", b"saltsalt").unwrap());
    assert_ne!(a, derive_kek(b"pasS", b"saltsalt").unwrap());
    assert_ne!(a, derive_kek(b"pass", b"saltsalT").unwrap());
    assert!(derive_kek(b"pass", b"short").is_err());
    assert!(derive_kek(b"", b"saltsalt").is_ok());
}

#[test]
fn the_cipher_is_that_of_rfc_8439() {
    // The example of RFC 8439, section 2.8.2, but without associated data: the encrypted text is
    // that of the example.
    let mut key = [0u8; 32];
    for (i, b) in key.iter_mut().enumerate() {
        *b = 0x80 + i as u8;
    }
    let nonce = [0x07, 0, 0, 0, 0x40, 0x41, 0x42, 0x43, 0x44, 0x45, 0x46, 0x47];
    let text = b"Ladies and Gentlemen of the class of '99: If I could offer you only one tip for the future, sunscreen would be it.";
    let sealed = seal_with(&key, &nonce, text).unwrap();
    assert_eq!(sealed.len(), text.len() + 16);
    assert_eq!(&sealed[..8], &[0xd3, 0x1a, 0x8d, 0x34, 0x64, 0x8e, 0x60, 0xdb]);
    assert_eq!(sealed, seal_with(&key, &nonce, text).unwrap());
    assert_eq!(open(&key, &nonce, &sealed).unwrap(), text);
    assert!(open(&key, &nonce, &sealed[..15]).is_err());
}

#[test]
fn a_new_passphrase_wraps_the_same_data_key() {
    let dek = generate_dek();
    let old = derive_kek(b"old", b"saltsalt").unwrap();
    let new = derive_kek(b"new", b"saltsalt").unwrap();
    let (nonce, ct) = seal(&dek, b"token").unwrap();
    let first = wrap_dek(&old, &dek).unwrap();
    let second = wrap_dek_with(&new, &[9u8; 12], &unwrap_dek(&old, &first).unwrap()).unwrap();
    assert_eq!(&second[..8], &WRAP_MAGIC);
    assert_eq!(&second[8..20], &[9u8; 12]);
    assert_eq!(second.len(), 8 + 12 + 32 + 16);
    assert_eq!(open(&unwrap_dek(&new, &second).unwrap(), &nonce, &ct).unwrap(), b"token");
}

// ---- the store -------------------------------------------------------------------------------

/// The tables in a database.
#[derive(Clone)]
struct Tables(Rc<Connection>);

impl Tables {
    fn memory() -> Tables {
        let conn = Connection::open_in_memory().unwrap();
        conn.execute_batch(
            "CREATE TABLE meta (wrapped_dek BLOB NOT NULL, kdf_salt BLOB NOT NULL);
             CREATE TABLE secret_store (driver TEXT NOT NULL, connection TEXT NOT NULL,
                 nonce BLOB NOT NULL, ciphertext BLOB NOT NULL,
                 created_at TEXT NOT NULL DEFAULT '2026-01-02T03:04:05Z',
                 PRIMARY KEY (driver, connection));",
        )
        .unwrap();
        Tables(Rc::new(conn))
    }
}

impl SecretTables for Tables {
    fn meta(&self) -> Result<Option<MetaRow>, String> {
        self.0
            .query_row("SELECT wrapped_dek, kdf_salt FROM meta", [], |r| {
                Ok(MetaRow { wrapped_dek: r.get(0)?, kdf_salt: r.get(1)? })
            })
            .optional()
            .map_err(|e| e.to_string())
    }

    fn insert_meta(&self, meta: &MetaRow) -> Result<(), String> {
        self.0
            .execute("INSERT INTO meta VALUES (?1, ?2)", (&meta.wrapped_dek, &meta.kdf_salt))
            .map(|_| ())
            .map_err(|e| e.to_string())
    }

    fn sealed(&self, driver: &str, connection: &str) -> Result<Option<SealedRow>, String> {
        self.0
            .query_row(
                "SELECT nonce, ciphertext FROM secret_store WHERE driver = ?1 AND connection = ?2",
                (driver, connection),
                |r| Ok(SealedRow { nonce: r.get(0)?, ciphertext: r.get(1)? }),
            )
            .optional()
            .map_err(|e| e.to_string())
    }

    fn upsert(&self, driver: &str, connection: &str, row: &SealedRow) -> Result<(), String> {
        self.0
            .execute(
                "INSERT INTO secret_store (driver, connection, nonce, ciphertext)
                 VALUES (?1, ?2, ?3, ?4) ON CONFLICT(driver, connection)
                 DO UPDATE SET nonce = excluded.nonce, ciphertext = excluded.ciphertext",
                (driver, connection, &row.nonce, &row.ciphertext),
            )
            .map(|_| ())
            .map_err(|e| e.to_string())
    }

    fn delete(&self, driver: &str, connection: &str) -> Result<(), String> {
        self.0
            .execute(
                "DELETE FROM secret_store WHERE driver = ?1 AND connection = ?2",
                (driver, connection),
            )
            .map(|_| ())
            .map_err(|e| e.to_string())
    }

    fn rows(&self) -> Result<Vec<ListedRow>, String> {
        let mut stmt = self
            .0
            .prepare("SELECT driver, connection, created_at FROM secret_store ORDER BY driver, connection")
            .map_err(|e| e.to_string())?;
        let rows = stmt
            .query_map([], |r| {
                Ok(ListedRow { driver: r.get(0)?, connection: r.get(1)?, created_at: r.get(2)? })
            })
            .map_err(|e| e.to_string())?;
        rows.collect::<Result<Vec<ListedRow>, rusqlite::Error>>().map_err(|e| e.to_string())
    }
}

fn ckey(driver: &str, connection: &str) -> CredentialKey {
    CredentialKey::new(DriverId::new(driver), ConnectionId::new(connection).unwrap())
}

fn opened(tables: Tables, passphrase: &str) -> Result<SqliteSecrets<Tables>, SecretError> {
    SqliteSecrets::open_or_init(tables, &Secret::from_text(passphrase))
}

fn must<T>(r: Result<T, SecretError>) -> T {
    match r {
        Ok(t) => t,
        Err(e) => panic!("unexpected: {e:?}"),
    }
}

fn error_code<T>(r: Result<T, SecretError>) -> &'static str {
    match r {
        Ok(_) => panic!("unexpected success"),
        Err(e) => e.code(),
    }
}

#[test]
fn put_get_remove_round_trip() {
    let store = must(opened(Tables::memory(), "pass"));
    let k = ckey("mail", "work");
    assert_eq!(error_code(store.get(&k)), "secret_not_found");

    must(store.put(&k, Secret::from_text("real-token-xyz")));
    assert_eq!(must(store.get(&k)).expose(), b"real-token-xyz");

    must(store.remove(&k));
    assert_eq!(error_code(store.get(&k)), "secret_not_found");
    must(store.remove(&k));
}

#[test]
fn ciphertext_column_does_not_contain_the_plaintext() {
    let tables = Tables::memory();
    let store = must(opened(tables.clone(), "pass"));
    must(store.put(&ckey("github", "main"), Secret::from_text("ghp_PLAINTEXT_LEAK_CANARY")));
    let ct: Vec<u8> = tables
        .0
        .query_row("SELECT ciphertext FROM secret_store", [], |r| r.get(0))
        .unwrap();
    assert!(
        !ct.windows("ghp_PLAINTEXT_LEAK_CANARY".len())
            .any(|w| w == b"ghp_PLAINTEXT_LEAK_CANARY"),
        "plaintext leaked into the ciphertext column"
    );
}

#[test]
fn list_filters_by_driver() {
    let store = must(opened(Tables::memory(), "pass"));
    must(store.put(&ckey("mail", "work"), Secret::from_text("a")));
    must(store.put(&ckey("mail", "home"), Secret::from_text("b")));
    must(store.put(&ckey("s3", "prod"), Secret::from_text("c")));

    assert_eq!(must(store.list(None)).len(), 3);
    assert_eq!(must(store.list(Some(&DriverId::new("mail")))).len(), 2);
}

#[test]
fn data_survives_reopen_with_the_same_passphrase() {
    let tables = Tables::memory();
    {
        let store = must(opened(tables.clone(), "correct horse"));
        must(store.put(&ckey("gh", "main"), Secret::from_text("ghp_persisted")));
    }
    let store = must(opened(tables, "correct horse"));
    assert_eq!(must(store.get(&ckey("gh", "main"))).expose(), b"ghp_persisted");
}

#[test]
fn wrong_passphrase_is_locked_on_reopen() {
    let tables = Tables::memory();
    must(opened(tables.clone(), "right"));
    match opened(tables, "wrong") {
        Err(err) => assert_eq!(err.code(), "secret_locked"),
        Ok(_) => panic!("a wrong passphrase must fail to unwrap the data key"),
    }
}

#[test]
fn a_failing_table_is_a_backend_error() {
    let conn = Connection::open_in_memory().unwrap();
    assert_eq!(error_code(opened(Tables(Rc::new(conn)), "pass")), "secret_backend");
    let tables = Tables::memory();
    let store = must(opened(tables.clone(), "pass"));
    tables.0.execute_batch("DROP TABLE secret_store").unwrap();
    let k = ckey("mail", "work");
    assert_eq!(error_code(store.get(&k)), "secret_backend");
    assert_eq!(error_code(store.put(&k, Secret::from_text("x"))), "secret_backend");
    assert_eq!(error_code(store.remove(&k)), "secret_backend");
    assert_eq!(error_code(store.list(None)), "secret_backend");
}

#[test]
fn a_damaged_value_does_not_open() {
    let tables = Tables::memory();
    let store = must(opened(tables.clone(), "pass"));
    let k = ckey("mail", "work");
    must(store.put(&k, Secret::from_text("x")));
    tables.0.execute("UPDATE secret_store SET ciphertext = x'00'", []).unwrap();
    assert!(store.get(&k).is_err());
}

#[test]
fn a_fresh_store_unlocks_with_its_passphrase_only() {
    let (dek, meta) = must(initialize(&Secret::from_text("p")));
    assert_eq!(must(unlock(&meta, &Secret::from_text("p"))), dek);
    assert_eq!(error_code(unlock(&meta, &Secret::from_text("q"))), "secret_locked");
    let row = must(seal_row(&dek, &Secret::new(vec![0, 255])));
    let k = ckey("a", "b");
    assert_eq!(must(open_row(&dek, &k, &Some(row))).expose(), &[0u8, 255]);
    assert_eq!(error_code(open_row(&dek, &k, &None)), "secret_not_found");
}

#[test]
fn listings_skip_names_that_are_none_and_keep_the_moment() {
    let row = |driver: &str, connection: &str, at: &str| ListedRow {
        driver: driver.to_string(),
        connection: connection.to_string(),
        created_at: at.to_string(),
    };
    let rows = vec![
        row("mail", "work", "1970-01-01T00:00:01Z"),
        row("mail", "not a name", "1970-01-01T00:00:01Z"),
        row("s3", "prod", "nonsense"),
    ];
    let records = list_records(&rows, None);
    assert_eq!(records.len(), 2);
    assert_eq!(records[0].created_at.unix_nanos, 1_000_000_000);
    assert_eq!(records[1].created_at, Timestamp::unix_epoch());
    assert_eq!(list_records(&rows, Some(&DriverId::new("s3"))).len(), 1);
}

#[test]
fn stored_moments_are_those_of_rfc_3339() {
    let t = parse_created_at("2024-02-29T12:34:56.5+02:00");
    assert_eq!(t.unix_nanos, 1_709_202_896_500_000_000);
    assert_eq!(t.offset_seconds, 7200);
    assert_eq!(parse_created_at("2024-02-30T12:34:56Z"), Timestamp::unix_epoch());
    assert_eq!(shown_moment(&t).as_deref(), Some("2024-02-29 12:34:56.5 +02:00:00"));
    assert_eq!(
        shown_moment(&Timestamp::unix_epoch()).as_deref(),
        Some("1970-01-01 0:00:00.0 +00:00:00")
    );
    assert_eq!(shown_moment(&Timestamp { unix_nanos: i128::MAX, offset_seconds: 0 }), None);
    assert_eq!(shown_moment(&Timestamp { unix_nanos: 0, offset_seconds: i32::MAX }), None);
    let record =
        ConnectionRecord::new(DriverId::new("mail"), ConnectionId::new("work").unwrap(), t);
    let line = listed(&record, "a@b".to_string(), true);
    assert_eq!((line.driver.as_str(), line.connection.as_str()), ("mail", "work"));
    assert_eq!(line.created_at, "2024-02-29 12:34:56.5 +02:00:00");
    assert_eq!(parse_created_at(""), Timestamp::unix_epoch());
}

#[test]
fn moments_at_the_edge_are_listed() {
    let at = |s: &str| {
        let connection = ConnectionId::new("work").unwrap();
        let record = ConnectionRecord::new(DriverId::new("mail"), connection, parse_created_at(s));
        listed(&record, String::new(), false).created_at
    };
    assert_eq!(at("9999-12-31T23:59:59-01:00"), "9999-12-31 23:59:59.0 -01:00:00");
    assert_eq!(at("0000-01-01T00:00:00+01:00"), "0000-01-01 0:00:00.0 +01:00:00");
    let connection = ConnectionId::new("work").unwrap();
    let never = Timestamp { unix_nanos: i128::MAX, offset_seconds: 1 };
    let record = ConnectionRecord::new(DriverId::new("mail"), connection, never);
    assert_eq!(listed(&record, String::new(), false).created_at, "unknown");
}
