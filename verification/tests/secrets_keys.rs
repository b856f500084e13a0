use qfs::secrets::{
    ActiveConnections, ConnectionId, ConnectionIdError, ConnectionRecord, CredentialKey, DriverId,
    Timestamp,
};

fn acct(s: &str) -> ConnectionId {
    ConnectionId::new(s).unwrap()
}

#[test]
fn set_get_clear_last_writer_wins() {
    let mut a = ActiveConnections::new();
    let mail = DriverId::new("mail");
    assert!(a.get(&mail).is_none());

    a.set(&mail, acct("work"));
    assert_eq!(a.get(&mail), Some(&acct("work")));

    // Last-writer-wins.
    a.set(&mail, acct("personal"));
    assert_eq!(a.get(&mail), Some(&acct("personal")));

    a.clear(&mail);
    assert!(a.get(&mail).is_none());
    // Idempotent clear.
    a.clear(&mail);
}

#[test]
fn drivers_are_kept_apart_and_in_order() {
    let mut a = ActiveConnections::default();
    assert!(a.is_empty());
    for d in ["s3", "mail", "drive", "mail2", "é", "z"] {
        a.set(&DriverId::new(d), acct(d));
    }
    assert!(!a.is_empty());
    let names: Vec<String> = a
        .entries()
        .into_iter()
        .map(|(d, c)| {
            assert_eq!(d.as_str(), c.as_str());
            d.as_str().to_string()
        })
        .collect();
    let mut sorted = names.clone();
    sorted.sort();
    assert_eq!(names, sorted);
    assert_eq!(names.len(), 6);
    a.clear(&DriverId::new("mail"));
    assert!(a.get(&DriverId::new("mail")).is_none());
    assert_eq!(a.get(&DriverId::new("mail2")), Some(&acct("mail2")));
}

#[test]
fn connection_id_rejects_empty_and_reserved() {
    assert_eq!(ConnectionId::new(""), Err(ConnectionIdError::Empty));
    assert_eq!(
        ConnectionId::new("a@b"),
        Err(ConnectionIdError::ReservedChar('@'))
    );
    assert_eq!(
        ConnectionId::new("a/b"),
        Err(ConnectionIdError::ReservedChar('/'))
    );
    assert_eq!(
        ConnectionId::new("a b"),
        Err(ConnectionIdError::ReservedChar(' '))
    );
    assert_eq!(acct("work").as_str(), "work");
}

#[test]
fn the_first_reserved_character_is_named() {
    assert_eq!(
        ConnectionId::new("a\u{2003}b@c"),
        Err(ConnectionIdError::ReservedChar('\u{2003}'))
    );
    assert_eq!(
        ConnectionIdError::Empty.message(),
        "connection id must not be empty"
    );
    assert_eq!(
        ConnectionIdError::ReservedChar('\t').message(),
        "connection id contains reserved character '\\t' (no '@', '/', or whitespace)"
    );
}

#[test]
fn credential_key_flat_encoding_is_unambiguous() {
    let k = CredentialKey::new(DriverId::new("mail"), acct("work"));
    assert_eq!(k.flat(), "mail/work");
    // Both halves exclude '/', so exactly one split point exists.
    assert_eq!(k.flat().matches('/').count(), 1);
}

#[test]
fn a_record_describes_its_key() {
    let rec = ConnectionRecord::new(DriverId::new("s3"), acct("prod"), Timestamp::unix_epoch());
    assert_eq!(
        rec.key(),
        CredentialKey::new(DriverId::new("s3"), acct("prod"))
    );
    assert_eq!(rec.created_at.unix_nanos, 0);
    assert_eq!(rec.created_at.offset_seconds, 0);
}
