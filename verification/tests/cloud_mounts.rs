use qfs::cloud_mounts::{
    canonical_id, cloud_mounts_from, load_cloud_mounts, CloudMount, MountRemap, PathBindingRow,
};

fn row(
    path: &str,
    driver: Option<&str>,
    alias: Option<&str>,
    account: Option<&str>,
) -> PathBindingRow {
    PathBindingRow {
        path: path.to_string(),
        driver_id: driver.map(str::to_string),
        at_locator: None,
        secret_ref: None,
        alias_of: alias.map(str::to_string),
        host: "local".to_string(),
        account: account.map(str::to_string),
        created_at: String::new(),
    }
}

#[test]
fn projects_full_connect_cloud_rows_only() {
    let bindings = vec![
        row("/mail", Some("gmail"), None, Some("work@example.com")),
        row("/mail2", Some("gmail"), None, Some("home@example.com")),
        // An alias reuses its target's registration — not a cloud mount.
        row("/m", None, Some("/mail"), None),
        // A local kind is not a per-account cloud mount.
        row("/work/orders", Some("postgres"), None, None),
        // A cloud mount with no account still enumerates (registration fails closed on it).
        row("/gh", Some("github"), None, None),
    ];
    let mounts = cloud_mounts_from(&bindings);
    assert_eq!(mounts.len(), 3);
    assert_eq!(mounts[0].path, "/mail");
    assert_eq!(mounts[0].account.as_deref(), Some("work@example.com"));
    assert_eq!(mounts[1].path, "/mail2");
    assert_eq!(mounts[2].path, "/gh");
    assert_eq!(mounts[2].account, None);
}

#[test]
fn remap_pairs_the_mount_path_with_the_kinds_canonical_id() {
    let m = CloudMount {
        path: "/mail2".into(),
        kind: "gmail".into(),
        account: None,
    };
    let remap = m.remap().expect("valid remap");
    assert_eq!(remap.outer_id().as_str(), "mail2");
    assert_eq!(remap.path_in("/mail2/inbox"), "/mail/inbox");
    // The renamed analytics driver keys its namespace by ID (`ga`), not its mount.
    let ga = CloudMount {
        path: "/analytics".into(),
        kind: "ga".into(),
        account: None,
    };
    let remap = ga.remap().expect("valid remap");
    assert_eq!(remap.path_in("/analytics/prop"), "/ga/prop");
}

#[test]
fn a_full_alias_row_with_a_kind_is_no_mount() {
    let rows = vec![row("/x", Some("gmail"), Some("/mail"), None)];
    assert!(cloud_mounts_from(&rows).is_empty());
}

#[test]
fn every_cloud_kind_has_its_identity() {
    let expected = [
        ("gmail", Some("mail")),
        ("gdrive", Some("drive")),
        ("ga", Some("ga")),
        ("google-analytics", Some("ga")),
        ("github", Some("github")),
        ("slack", Some("slack")),
        ("s3", Some("s3")),
        ("r2", Some("r2")),
        ("cf", Some("cf")),
        ("postgres", None),
        ("", None),
    ];
    for (kind, id) in expected {
        assert_eq!(canonical_id(kind), id);
    }
}

#[test]
fn an_absent_registry_has_no_mounts() {
    assert!(load_cloud_mounts(None).is_empty());
    let rows = vec![row("/s", Some("slack"), None, Some("bot"))];
    let mounts = load_cloud_mounts(Some(rows));
    assert_eq!(mounts.len(), 1);
    assert_eq!(mounts[0].kind, "slack");
}

#[test]
fn malformed_mount_paths_have_no_remap() {
    for path in ["", "/", "mail", "/mail/", "/a//b"] {
        assert!(MountRemap::new(path, "mail").is_none(), "{path}");
    }
    let nested = MountRemap::new("/work/mail", "mail").unwrap();
    assert_eq!(nested.path_in("/work/mail"), "/mail");
    assert_eq!(nested.path_in("/work/mail/x/y"), "/mail/x/y");
    assert_eq!(nested.path_in("/work/mailbox"), "/work/mailbox");
}
