use qfs::command::account::{self, app_key, app_list, google_scope, list_accounts, AccountAction};
use qfs::command::connection::{self, active_connection, consent_scope, cred_key, ConnectionAction};
use qfs::command::script::{check_passphrase, Action, Event, Listed, SoleUser};
use qfs::secrets::{ActiveConnections, ConnectionId, CredentialKey, DriverId};
use std::collections::{BTreeMap, BTreeSet};

/// The world that the commands act on, in memory.
struct World {
    user: SoleUser,
    stdin: Option<String>,
    typed: Option<String>,
    broken: Option<&'static str>,
    store: BTreeMap<(String, String), String>,
    revoked: BTreeSet<(String, String)>,
    consents: BTreeMap<(String, String), (String, String)>,
    active: BTreeMap<String, String>,
    audit: Vec<String>,
    trace: Vec<&'static str>,
}

fn pair(k: &CredentialKey) -> (String, String) {
    (k.driver.as_str().to_string(), k.connection.as_str().to_string())
}

impl World {
    fn new() -> World {
        World {
            user: SoleUser::One("op@example.com".to_string()),
            stdin: None,
            typed: None,
            broken: None,
            store: BTreeMap::new(),
            revoked: BTreeSet::new(),
            consents: BTreeMap::new(),
            active: BTreeMap::new(),
            audit: Vec::new(),
            trace: Vec::new(),
        }
    }

    fn records(&self, driver: Option<&str>) -> Vec<Listed> {
        self.store
            .keys()
            .filter(|(d, _)| driver.map_or(true, |x| x == d.as_str()))
            .map(|(d, c)| Listed {
                driver: d.clone(),
                connection: c.clone(),
                email: c.replace('+', "@"),
                cloud: matches!(d.as_str(), "github" | "slack" | "gmail"),
                created_at: "2026-01-01".to_string(),
            })
            .collect()
    }

    fn perform(&mut self, action: &Action) -> Event {
        let name = match action {
            Action::RequireSignedIn => "sign-in",
            Action::OpenStore => "open",
            Action::ReadStdin => "stdin",
            Action::Prompt(_) => "prompt",
            Action::GoogleConsent => "consent",
            Action::RefreshTokenKey(_) => "key",
            Action::Put(..) => "put",
            Action::Rotate(..) => "rotate",
            Action::Revoke(_) => "revoke",
            Action::Remove(_) => "remove",
            Action::List(_) => "list",
            Action::OpenProject => "project",
            Action::RecordConsent { .. } => "record",
            Action::DeleteConsent { .. } => "delete",
            Action::SetActive { .. } => "active",
            Action::Audit { .. } => "audit",
            Action::Finish(..) => "finish",
        };
        self.trace.push(name);
        if self.broken == Some(name) {
            return Event::Failed("out of order".to_string());
        }
        match action {
            Action::RequireSignedIn => Event::User(self.user.clone()),
            Action::ReadStdin => Event::Text(self.stdin.clone()),
            Action::Prompt(_) => Event::Text(self.typed.clone()),
            Action::GoogleConsent => Event::Text(self.typed.clone()),
            Action::RefreshTokenKey(email) => {
                match ConnectionId::new(email.replace('@', "+").as_str()) {
                    Ok(c) => Event::Key(CredentialKey::new(DriverId::new("google"), c)),
                    Err(_) => Event::Failed("bad account".to_string()),
                }
            }
            Action::Put(k, v) => {
                self.store.insert(pair(k), v.clone());
                Event::Done
            }
            Action::Rotate(k, v) => {
                self.store.insert(pair(k), v.clone());
                self.revoked.remove(&pair(k));
                Event::Done
            }
            Action::Revoke(k) => {
                self.revoked.insert(pair(k));
                Event::Done
            }
            Action::Remove(k) => {
                self.store.remove(&pair(k));
                Event::Done
            }
            Action::List(driver) => Event::Records(self.records(driver.as_deref())),
            Action::RecordConsent { driver, connection, subject, scope } => {
                self.consents.insert(
                    (driver.clone(), connection.clone()),
                    (subject.clone(), scope.clone()),
                );
                Event::Done
            }
            Action::DeleteConsent { driver, connection } => {
                self.consents.remove(&(driver.clone(), connection.clone()));
                Event::Done
            }
            Action::SetActive { driver, connection } => {
                self.active.insert(driver.clone(), connection.clone());
                Event::Done
            }
            Action::Audit { verb, target } => {
                self.audit.push(format!("{verb} {target}"));
                Event::Done
            }
            _ => Event::Done,
        }
    }

    fn drive(&mut self, next: impl Fn(&Vec<Event>) -> Action) -> (Vec<String>, Result<String, String>) {
        let mut events: Vec<Event> = Vec::new();
        loop {
            match next(&events) {
                Action::Finish(lines, result) => return (lines, result),
                action => {
                    let event = self.perform(&action);
                    events.push(event);
                }
            }
        }
    }

    fn account(&mut self, action: AccountAction, cloud: bool, terminal: bool) -> Result<String, String> {
        self.drive(|events| account::run_inner(&action, cloud, terminal, events)).1
    }

    fn connection(&mut self, action: ConnectionAction, cloud: bool) -> (Vec<String>, Result<String, String>) {
        self.drive(|events| connection::run_inner(&action, cloud, events))
    }
}

const GOOGLE_DRIVERS: [&str; 3] = ["gmail", "gdrive", "ga"];

// ---- accounts --------------------------------------------------------------------------------

#[test]
fn google_account_bookkeeping_round_trips() {
    let mut w = World::new();
    w.stdin = Some("1//refresh\n".to_string());
    let added = w
        .account(
            AccountAction::Add {
                provider: "google".to_string(),
                label: Some("you@example.com".to_string()),
            },
            true,
            false,
        )
        .unwrap();
    assert!(added.contains("you@example.com"));
    assert!(!added.contains("1//refresh"));
    assert_eq!(
        w.store.get(&("google".to_string(), "you+example.com".to_string())),
        Some(&"1//refresh".to_string())
    );
    for driver in GOOGLE_DRIVERS {
        let consent = w.consents.get(&(driver.to_string(), "you@example.com".to_string()));
        assert!(consent.is_some(), "{driver} consent recorded under the account email");
        assert_eq!(consent.unwrap().0, "op@example.com");
        assert_eq!(consent.unwrap().1, google_scope(driver));
    }

    let out = w
        .account(
            AccountAction::Remove {
                provider: "google".to_string(),
                label: "you@example.com".to_string(),
            },
            true,
            false,
        )
        .unwrap();
    assert!(out.contains("you@example.com"));
    for driver in GOOGLE_DRIVERS {
        assert!(
            w.consents.get(&(driver.to_string(), "you@example.com".to_string())).is_none(),
            "{driver} consent deleted"
        );
    }
    assert!(w.store.is_empty());
}

#[test]
fn unknown_providers_are_actionable_errors() {
    let mut w = World::new();
    let err = w
        .account(AccountAction::Add { provider: "sqlite".to_string(), label: None }, false, false)
        .unwrap_err();
    assert!(err.contains("not a cloud provider"), "{err}");
    assert!(err.contains("CREATE CONNECTION"), "actionable: {err}");
    assert!(w.trace.is_empty());
    let err = app_key("github").unwrap_err();
    assert!(err.contains("github"), "{err}");
}

#[test]
fn app_registration_round_trips_under_the_legacy_key() {
    let mut w = World::new();
    let key = app_key("google").unwrap();
    assert_eq!(key.driver.as_str(), "google-app");
    assert_eq!(key.connection.as_str(), "default");
    w.stdin = Some("{\"installed\":{}}".to_string());
    w.account(AccountAction::AppAdd { provider: "google".to_string() }, false, false).unwrap();
    assert_eq!(w.store.get(&pair(&key)), Some(&"{\"installed\":{}}".to_string()));

    let listed = w.account(AccountAction::AppList, false, false).unwrap();
    assert!(listed.contains("google"), "{listed}");
    let removed =
        w.account(AccountAction::AppRemove { provider: "google".to_string() }, false, false).unwrap();
    assert!(removed.contains("google"));
    let listed = w.account(AccountAction::AppList, false, false).unwrap();
    assert!(listed.contains("no OAuth apps"), "{listed}");
}

#[test]
fn a_google_account_on_a_terminal_consents_in_the_browser() {
    let mut w = World::new();
    w.typed = Some("me@example.com".to_string());
    let out = w
        .account(AccountAction::Add { provider: "google".to_string(), label: None }, true, true)
        .unwrap();
    assert!(out.contains("me@example.com"), "{out}");
    assert!(w.trace.contains(&"consent"));
    assert!(!w.trace.contains(&"stdin"));
    assert_eq!(w.consents.len(), 3);
}

#[test]
fn accounts_need_a_signed_in_user() {
    for user in [SoleUser::Nobody, SoleUser::Many] {
        for provider in ["google", "github"] {
            let mut w = World::new();
            w.user = user.clone();
            w.stdin = Some("token".to_string());
            let err = w
                .account(
                    AccountAction::Add {
                        provider: provider.to_string(),
                        label: Some("a".to_string()),
                    },
                    true,
                    false,
                )
                .unwrap_err();
            assert!(err.contains("sign"), "{err}");
            assert_eq!(w.trace, vec!["sign-in"]);
            assert!(w.store.is_empty() && w.consents.is_empty());
        }
    }
}

#[test]
fn a_cloud_account_is_stored_with_its_consent_and_rotates_and_is_revoked() {
    let mut w = World::new();
    w.stdin = Some("ghp_one\r\n".to_string());
    let out = w
        .account(AccountAction::Add { provider: "github".to_string(), label: None }, true, false)
        .unwrap();
    assert!(!out.contains("ghp_one"));
    let key = ("github".to_string(), "default".to_string());
    assert_eq!(w.store.get(&key), Some(&"ghp_one".to_string()));
    assert!(w.consents.contains_key(&key));

    let listed = w.account(AccountAction::List, true, false).unwrap();
    assert_eq!(listed, "github\tdefault\tauthorized 2026-01-01");

    w.account(
        AccountAction::Revoke { provider: "github".to_string(), label: "default".to_string() },
        true,
        false,
    )
    .unwrap();
    assert!(w.revoked.contains(&key));

    w.stdin = Some("ghp_two".to_string());
    let out = w
        .account(
            AccountAction::Rotate { provider: "github".to_string(), label: "default".to_string() },
            true,
            false,
        )
        .unwrap();
    assert!(!out.contains("ghp_two"));
    assert_eq!(w.store.get(&key), Some(&"ghp_two".to_string()));
    assert!(!w.revoked.contains(&key));
    assert_eq!(w.audit.len(), 2);

    w.account(
        AccountAction::Remove { provider: "github".to_string(), label: "default".to_string() },
        true,
        false,
    )
    .unwrap();
    assert!(w.store.is_empty());
    let listed = w.account(AccountAction::List, true, false).unwrap();
    assert!(listed.contains("no service accounts yet"), "{listed}");
}

#[test]
fn a_token_typed_on_a_terminal_is_prompted_for() {
    let mut w = World::new();
    w.typed = Some("xoxb".to_string());
    w.account(
        AccountAction::Add { provider: "slack".to_string(), label: Some("team".to_string()) },
        true,
        true,
    )
    .unwrap();
    assert!(w.trace.contains(&"prompt"));
    assert_eq!(
        w.store.get(&("slack".to_string(), "team".to_string())),
        Some(&"xoxb".to_string())
    );
}

#[test]
fn every_failing_step_ends_a_command_with_its_message() {
    for step in ["open", "stdin", "put", "project", "record"] {
        let mut w = World::new();
        w.stdin = Some("t".to_string());
        w.broken = Some(step);
        let err = w
            .account(AccountAction::Add { provider: "github".to_string(), label: None }, true, false)
            .unwrap_err();
        assert!(err.contains("out of order"), "{step}: {err}");
    }
    for step in ["key", "open", "remove", "project", "delete"] {
        let mut w = World::new();
        w.broken = Some(step);
        let err = w
            .account(
                AccountAction::Remove { provider: "google".to_string(), label: "a@b".to_string() },
                true,
                false,
            )
            .unwrap_err();
        assert!(err.contains("out of order"), "{step}: {err}");
    }
}

#[test]
fn an_empty_secret_is_refused() {
    for text in [None, Some("".to_string()), Some("\r\n\n".to_string())] {
        let mut w = World::new();
        w.stdin = text;
        let err = w
            .account(AccountAction::AppAdd { provider: "google".to_string() }, false, false)
            .unwrap_err();
        assert_eq!(
            err,
            "no app credentials on stdin — pipe it, e.g. `cat credentials.json | qfs app add google`"
        );
        assert!(w.store.is_empty());
    }
}

#[test]
fn listings_show_only_what_they_are_of() {
    let listed = |driver: &str, cloud: bool| Listed {
        driver: driver.to_string(),
        connection: "c".to_string(),
        email: "e@x".to_string(),
        cloud,
        created_at: "T".to_string(),
    };
    let records = vec![
        listed("google-app", false),
        listed("google", false),
        listed("sqlite", false),
        listed("github", true),
    ];
    assert_eq!(app_list(&records), "google\tregistered T");
    assert_eq!(
        list_accounts(&records),
        "google\te@x\tauthorized T\ngithub\tc\tauthorized T"
    );
    assert_eq!(app_list(&vec![listed("x-app-app", false)]), "x\tregistered T");
}

#[test]
fn google_scopes_are_those_of_the_drivers() {
    assert_eq!(google_scope("gmail"), "gmail.modify gmail.compose");
    assert_eq!(google_scope("gdrive"), "drive");
    assert_eq!(google_scope("ga"), "analytics.readonly");
}

// ---- connections -----------------------------------------------------------------------------

#[test]
fn cred_key_rejects_an_invalid_connection_name() {
    assert!(cred_key("mail", "").is_err());
    let k = cred_key("mail", "work").expect("valid");
    assert_eq!(k.driver.as_str(), "mail");
    assert_eq!(k.connection.as_str(), "work");
    assert_eq!(cred_key("mail", "a/b").unwrap_err(), "invalid connection name: ReservedChar('/')");
}

#[test]
fn active_selection_round_trips_through_the_db_table() {
    let mut active = ActiveConnections::new();
    assert!(active_connection(Some(&active), "mail").is_none());
    active.set(&DriverId::new("mail"), ConnectionId::new("work").unwrap());
    active.set(&DriverId::new("s3"), ConnectionId::new("prod").unwrap());
    active.set(&DriverId::new("mail"), ConnectionId::new("personal").unwrap());
    assert_eq!(active_connection(Some(&active), "mail").as_deref(), Some("personal"));
    assert_eq!(active_connection(Some(&active), "s3").as_deref(), Some("prod"));
    assert_eq!(active.entries().len(), 2);
    assert!(active_connection(None, "mail").is_none());
}

#[test]
fn active_connection_set_get_round_trip() {
    let mut w = World::new();
    let mut used = |connection: &str, driver: &str| {
        w.connection(
            ConnectionAction::Use {
                driver: driver.to_string(),
                connection: connection.to_string(),
            },
            false,
        )
        .1
        .unwrap();
        w.active.clone()
    };
    assert_eq!(used("work", "mail").get("mail").map(String::as_str), Some("work"));
    assert_eq!(used("personal", "mail").get("mail").map(String::as_str), Some("personal"));
    let active = used("prod", "s3");
    assert_eq!(active.get("s3").map(String::as_str), Some("prod"));
    assert_eq!(active.get("mail").map(String::as_str), Some("personal"));
}

#[test]
fn a_local_credential_needs_no_sign_in() {
    let mut w = World::new();
    w.user = SoleUser::Nobody;
    w.stdin = Some("secret\n".to_string());
    let out = w
        .connection(
            ConnectionAction::Add { driver: "sql".to_string(), connection: "main".to_string() },
            false,
        )
        .1
        .unwrap();
    assert_eq!(out, "stored credential for sql/main");
    assert_eq!(w.trace, vec!["open", "stdin", "put"]);
    assert!(w.consents.is_empty());
}

#[test]
fn a_cloud_credential_records_the_consent() {
    let mut w = World::new();
    w.stdin = Some("tok".to_string());
    let add = ConnectionAction::Add { driver: "github".to_string(), connection: "main".to_string() };
    let out = w.connection(add.clone(), true).1.unwrap();
    assert_eq!(
        out,
        "stored credential and recorded consent for github/main (granted by op@example.com)"
    );
    assert_eq!(
        w.consents.get(&("github".to_string(), "main".to_string())).unwrap().1,
        consent_scope("github")
    );
    let mut w = World::new();
    w.user = SoleUser::Many;
    assert!(w.connection(add, true).1.unwrap_err().contains("multiple users"));
    assert_eq!(w.trace, vec!["sign-in"]);
}

#[test]
fn connections_list_and_remove() {
    let mut w = World::new();
    assert_eq!(
        w.connection(ConnectionAction::List { driver: None }, false).1.unwrap(),
        "no connections configured"
    );
    w.store.insert(("mail".to_string(), "work".to_string()), "x".to_string());
    w.store.insert(("s3".to_string(), "prod".to_string()), "y".to_string());
    let (lines, out) = w.connection(ConnectionAction::List { driver: None }, false);
    assert_eq!(lines, vec!["mail/work\t2026-01-01".to_string(), "s3/prod\t2026-01-01".to_string()]);
    assert_eq!(out.unwrap(), "2 connection(s)");
    let (lines, out) =
        w.connection(ConnectionAction::List { driver: Some("s3".to_string()) }, false);
    assert_eq!(lines.len(), 1);
    assert_eq!(out.unwrap(), "1 connection(s)");
    let out = w
        .connection(
            ConnectionAction::Remove { driver: "s3".to_string(), connection: "prod".to_string() },
            false,
        )
        .1
        .unwrap();
    assert_eq!(out, "removed s3/prod (idempotent)");
    assert_eq!(w.store.len(), 1);
    let err = w
        .connection(
            ConnectionAction::Remove { driver: "s3".to_string(), connection: "a b".to_string() },
            false,
        )
        .1
        .unwrap_err();
    assert!(err.contains("ReservedChar(' ')"), "{err}");
}

#[test]
fn a_cloud_connection_becomes_active_only_when_signed_in() {
    let using =
        ConnectionAction::Use { driver: "github".to_string(), connection: "main".to_string() };
    let mut w = World::new();
    let out = w.connection(using.clone(), true).1.unwrap();
    assert_eq!(out, "active connection for github set to main");
    let mut w = World::new();
    w.user = SoleUser::Nobody;
    assert!(w.connection(using, true).1.unwrap_err().contains("requires sign-in"));
    assert!(w.active.is_empty());
}

#[test]
fn every_driver_of_the_cloud_has_its_least_scope() {
    for (driver, scope) in [
        ("gmail", "gmail.readonly"),
        ("gdrive", "drive.readonly"),
        ("ga", "analytics.readonly"),
        ("github", "repo"),
        ("slack", "channels:read"),
        ("objstore", "storage.read"),
        ("cf", "account.read"),
        ("sqlite", ""),
    ] {
        assert_eq!(consent_scope(driver), scope);
    }
}

#[test]
fn the_passphrase_must_be_set_and_not_empty() {
    assert_eq!(check_passphrase(Some("p".to_string())), Ok("p".to_string()));
    assert_eq!(
        check_passphrase(None),
        Err("QFS_PASSPHRASE is not set — export it to unlock the encrypted credential store".to_string())
    );
    assert_eq!(check_passphrase(Some(String::new())), Err("QFS_PASSPHRASE is empty".to_string()));
}

#[test]
fn a_command_touches_only_its_own_credential() {
    let mut w = World::new();
    for key in [("google-app", "default"), ("github", "a"), ("github", "b"), ("google", "me+x")] {
        w.store.insert((key.0.to_string(), key.1.to_string()), "v".to_string());
    }
    w.account(AccountAction::AppRemove { provider: "google".to_string() }, false, false).unwrap();
    assert_eq!(w.store.len(), 3);
    w.account(
        AccountAction::Revoke { provider: "github".to_string(), label: "a".to_string() },
        true,
        false,
    )
    .unwrap();
    assert_eq!(w.revoked.len(), 1);
    w.account(
        AccountAction::Remove { provider: "github".to_string(), label: "a".to_string() },
        true,
        false,
    )
    .unwrap();
    let left: Vec<&str> = w.store.keys().map(|k| k.1.as_str()).collect();
    assert_eq!(left, vec!["b", "me+x"]);
}
