//! The commands on applications and accounts.
//!
//! An application is an operator's OAuth registration with a provider. An account is a service's
//! token and the consent to use it. One Google account serves mail, drive and analytics: one token,
//! and a consent for each of the three.
use crate::command::script::{
    alike_but_texts, event_views, fail, failed, failed_at, failure, key_of, lemma_mentions,
    mentions, prefixed_failure, read_secret, require_signed_in, secret_at, subject_at, succeed,
    success, text_at, text_of, Action, ActionView, Event, EventView, Listed,
};
use crate::secrets::key::{name_error, CredentialKey};
use crate::text::{
    cat2, cat3, cat4, cat5, cat7, chars_of, chomped, ends, ends_with, join, joined, opt_view, same,
    string_of, views,
};
use vstd::prelude::*;

verus! {

/// A command on applications or accounts.
#[derive(Debug, Clone, PartialEq, Eq)]
pub enum AccountAction {
    /// Registers an application whose credentials come on standard input.
    AppAdd { provider: String },
    /// Lists the registered applications.
    AppList,
    /// Removes an application.
    AppRemove { provider: String },
    /// Authorizes an account.
    Add { provider: String, label: Option<String> },
    /// Lists the authorized accounts.
    List,
    /// Removes an account.
    Remove { provider: String, label: String },
    /// Replaces an account's secret.
    Rotate { provider: String, label: String },
    /// Makes an account's secret unusable.
    Revoke { provider: String, label: String },
}

/// The drivers that one Google account serves.
pub const GOOGLE_DRIVERS: [&'static str; 3] = ["gmail", "gdrive", "ga"];

/// The scope that the consent for a Google driver is recorded against.
pub open spec fn google_scope_of(driver: Seq<char>) -> Seq<char> {
    if driver == "gmail"@ {
        "gmail.modify gmail.compose"@
    } else if driver == "gdrive"@ {
        "drive"@
    } else {
        "analytics.readonly"@
    }
}

/// The scope that the consent for a Google driver is recorded against.
pub fn google_scope(driver: &str) -> (r: &'static str)
    ensures
        r@ == google_scope_of(driver@),
{
    if same(driver, "gmail") {
        "gmail.modify gmail.compose"
    } else if same(driver, "gdrive") {
        "drive"
    } else {
        "analytics.readonly"
    }
}

// ---- applications ----------------------------------------------------------------------------

/// Why there is no application for a provider.
pub open spec fn no_app(provider: Seq<char>) -> Seq<char> {
    "no app registration exists for `"@ + provider
        + "` — today the OAuth-app layer serves google (its Desktop-app credentials.json); other providers authenticate per account token"@
}

/// The key that an application is sealed under.
///
/// # Errors
/// The message for a provider without applications.
pub fn app_key(provider: &str) -> (r: Result<CredentialKey, String>)
    ensures
        match r {
            Ok(k) => provider@ == "google"@ && k@ == (provider@ + "-app"@, "default"@),
            Err(m) => provider@ != "google"@ && m@ == no_app(provider@),
        },
{
    if !same(provider, "google") {
        return Err(
            cat3(
                "no app registration exists for `",
                provider,
                "` — today the OAuth-app layer serves google (its Desktop-app credentials.json); other providers authenticate per account token",
            ),
        );
    }
    let driver: String = cat2(provider, "-app");
    match key_of(driver.as_str(), "default") {
        Ok(k) => Ok(k),
        Err(e) => {
            proof {
                reveal_strlit("default");
                assert(crate::secrets::key::is_connection_name("default"@));
            }
            Err(e.message())
        },
    }
}

/// The next step of registering an application.
pub open spec fn app_add_step(provider: Seq<char>, ev: Seq<EventView>) -> ActionView {
    if provider != "google"@ {
        fail(no_app(provider))
    } else if ev.len() == 0 {
        ActionView::ReadStdin
    } else {
        match secret_at(
            ev,
            0,
            "app credentials"@,
            "cat credentials.json | qfs app add google"@,
        ) {
            Err(m) => fail(m),
            Ok(value) => if ev.len() == 1 {
                ActionView::OpenStore
            } else if failed_at(ev, 1) is Some {
                fail(failed_at(ev, 1)->Some_0)
            } else if ev.len() == 2 {
                ActionView::Put((provider + "-app"@, "default"@), value)
            } else if failed_at(ev, 2) is Some {
                fail("storing the app credentials: "@ + failed_at(ev, 2)->Some_0)
            } else {
                succeed(
                    "registered the "@ + provider
                        + " OAuth app (credentials sealed in the vault; `qfs account add "@
                        + provider + "` can now authorize accounts)"@,
                )
            },
        }
    }
}

fn app_add(provider: &str, events: &Vec<Event>) -> (r: Action)
    ensures
        r@ == app_add_step(provider@, event_views(events@)),
{
    let n: usize = events.len();
    let key: CredentialKey = match app_key(provider) {
        Ok(k) => k,
        Err(m) => return failure(m),
    };
    if n == 0 {
        return Action::ReadStdin;
    }
    let value: String = match read_secret(
        events,
        0,
        "app credentials",
        "cat credentials.json | qfs app add google",
    ) {
        Ok(v) => v,
        Err(m) => return failure(m),
    };
    if n == 1 {
        return Action::OpenStore;
    }
    match failed(events, 1) {
        Some(m) => return failure(m.to_owned()),
        None => {},
    }
    if n == 2 {
        return Action::Put(key, value);
    }
    match failed(events, 2) {
        Some(m) => return prefixed_failure("storing the app credentials: ", m),
        None => {},
    }
    success(
        cat5(
            "registered the ",
            provider,
            " OAuth app (credentials sealed in the vault; `qfs account add ",
            provider,
            "` can now authorize accounts)",
        ),
    )
}

/// `s` without the suffixes `-app` at its end.
pub open spec fn without_app(s: Seq<char>) -> Seq<char>
    decreases s.len(),
{
    if ends(s, "-app"@) && "-app"@.len() > 0 {
        without_app(s.take(s.len() - "-app"@.len()))
    } else {
        s
    }
}

fn strip_app(s: &str) -> (r: String)
    ensures
        r@ == without_app(s@),
{
    let v: Vec<char> = chars_of(s);
    let mut n: usize = v.len();
    proof {
        reveal_strlit("-app");
    }
    assert(v@.take(n as int) =~= s@);
    while n >= 4 && crate::text::at(&v, n - 4, "-app")
        invariant
            n <= v.len(),
            "-app"@.len() == 4,
            without_app(v@.take(n as int)) == without_app(s@),
        decreases n,
    {
        proof {
            let t = v@.take(n as int);
            assert(t.subrange(n - 4, n as int) =~= v@.subrange(n - 4, n as int));
            assert(t.take(n - 4) =~= v@.take(n - 4));
        }
        n = n - 4;
    }
    proof {
        let t = v@.take(n as int);
        if ends(t, "-app"@) {
            assert(t.subrange(n - 4, n as int) =~= v@.subrange(n - 4, n as int));
        }
    }
    assert(v@.take(n as int) =~= v@.subrange(0, n as int));
    string_of(&v, 0, n)
}

/// The line for an application, if the record is one of an application.
pub open spec fn app_line(r: Listed) -> Option<Seq<char>> {
    if ends(r.driver@, "-app"@) {
        Some(without_app(r.driver@) + "\tregistered "@ + r.created_at@)
    } else {
        None
    }
}

/// The lines for the applications among the records.
pub open spec fn app_lines(records: Seq<Listed>) -> Seq<Seq<char>>
    decreases records.len(),
{
    if records.len() == 0 {
        Seq::empty()
    } else {
        let before = app_lines(records.drop_last());
        match app_line(records.last()) {
            Some(l) => before.push(l),
            None => before,
        }
    }
}

/// What a listing of applications says.
pub open spec fn app_listing(records: Seq<Listed>) -> Seq<char> {
    if app_lines(records).len() == 0 {
        "no OAuth apps registered — `cat credentials.json | qfs app add google`"@
    } else {
        joined(app_lines(records), "\n"@)
    }
}

/// What a listing of applications says.
pub fn app_list(records: &Vec<Listed>) -> (r: String)
    ensures
        r@ == app_listing(records@),
{
    let mut lines: Vec<String> = Vec::new();
    let mut i: usize = 0;
    assert(views(lines@) =~= Seq::empty());
    while i < records.len()
        invariant
            i <= records.len(),
            views(lines@) == app_lines(records@.take(i as int)),
        decreases records.len() - i,
    {
        let r: &Listed = &records[i];
        assert(records@.take(i + 1).drop_last() =~= records@.take(i as int));
        let ghost had = views(lines@);
        if ends_with(r.driver.as_str(), "-app") {
            let provider: String = strip_app(r.driver.as_str());
            let line: String = cat3(provider.as_str(), "\tregistered ", r.created_at.as_str());
            let ghost added = line@;
            lines.push(line);
            assert(views(lines@) =~= had.push(added));
        }
        i = i + 1;
    }
    assert(records@.take(i as int) =~= records@);
    if lines.len() == 0 {
        return "no OAuth apps registered — `cat credentials.json | qfs app add google`".to_owned();
    }
    join(&lines, "\n")
}

/// The records of the event `i`; none where it is another event.
pub open spec fn records_at(ev: Seq<EventView>, i: int) -> Seq<Listed> {
    match ev[i] {
        EventView::Records(r) => r,
        _ => Seq::empty(),
    }
}

/// The next step of listing the applications.
pub open spec fn app_list_step(ev: Seq<EventView>) -> ActionView {
    if ev.len() == 0 {
        ActionView::OpenStore
    } else if failed_at(ev, 0) is Some {
        fail(failed_at(ev, 0)->Some_0)
    } else if ev.len() == 1 {
        ActionView::List(None)
    } else if failed_at(ev, 1) is Some {
        fail("listing app registrations: "@ + failed_at(ev, 1)->Some_0)
    } else {
        succeed(app_listing(records_at(ev, 1)))
    }
}

fn next_of_app_list(events: &Vec<Event>) -> (r: Action)
    ensures
        r@ == app_list_step(event_views(events@)),
{
    let n: usize = events.len();
    if n == 0 {
        return Action::OpenStore;
    }
    match failed(events, 0) {
        Some(m) => return failure(m.to_owned()),
        None => {},
    }
    if n == 1 {
        return Action::List(None);
    }
    match failed(events, 1) {
        Some(m) => return prefixed_failure("listing app registrations: ", m),
        None => {},
    }
    assert(event_views(events@)[1] == events@[1]@);
    let none: Vec<Listed> = Vec::new();
    assert(none@ =~= Seq::empty());
    match &events[1] {
        Event::Records(r) => success(app_list(r)),
        _ => success(app_list(&none)),
    }
}

/// The next step of removing an application.
pub open spec fn app_remove_step(provider: Seq<char>, ev: Seq<EventView>) -> ActionView {
    if provider != "google"@ {
        fail(no_app(provider))
    } else if ev.len() == 0 {
        ActionView::OpenStore
    } else if failed_at(ev, 0) is Some {
        fail(failed_at(ev, 0)->Some_0)
    } else if ev.len() == 1 {
        ActionView::Remove((provider + "-app"@, "default"@))
    } else if failed_at(ev, 1) is Some {
        fail("removing the app registration: "@ + failed_at(ev, 1)->Some_0)
    } else {
        succeed("removed the "@ + provider + " OAuth app registration"@)
    }
}

/// The next step of removing an application.
pub fn app_remove(provider: &str, events: &Vec<Event>) -> (r: Action)
    ensures
        r@ == app_remove_step(provider@, event_views(events@)),
{
    let n: usize = events.len();
    let key: CredentialKey = match app_key(provider) {
        Ok(k) => k,
        Err(m) => return failure(m),
    };
    if n == 0 {
        return Action::OpenStore;
    }
    match failed(events, 0) {
        Some(m) => return failure(m.to_owned()),
        None => {},
    }
    if n == 1 {
        return Action::Remove(key);
    }
    match failed(events, 1) {
        Some(m) => return prefixed_failure("removing the app registration: ", m),
        None => {},
    }
    success(cat3("removed the ", provider, " OAuth app registration"))
}

// ---- adding a Google account -----------------------------------------------------------------

/// The next step once a Google account is known: opening the project's database with the event
/// `k`, then a consent for each of the three drivers.
pub open spec fn google_consent_step(
    subject: Seq<char>,
    email: Seq<char>,
    k: int,
    ev: Seq<EventView>,
) -> ActionView {
    if ev.len() == k {
        ActionView::OpenProject
    } else if failed_at(ev, k) is Some {
        fail(failed_at(ev, k)->Some_0)
    } else if ev.len() == k + 1 {
        record_google(GOOGLE_DRIVERS[0]@, email, subject)
    } else if failed_at(ev, k + 1) is Some {
        fail(consent_failure(GOOGLE_DRIVERS[0]@, failed_at(ev, k + 1)->Some_0))
    } else if ev.len() == k + 2 {
        record_google(GOOGLE_DRIVERS[1]@, email, subject)
    } else if failed_at(ev, k + 2) is Some {
        fail(consent_failure(GOOGLE_DRIVERS[1]@, failed_at(ev, k + 2)->Some_0))
    } else if ev.len() == k + 3 {
        record_google(GOOGLE_DRIVERS[2]@, email, subject)
    } else if failed_at(ev, k + 3) is Some {
        fail(consent_failure(GOOGLE_DRIVERS[2]@, failed_at(ev, k + 3)->Some_0))
    } else {
        succeed(google_added(subject, email))
    }
}

/// The recording of a Google account's consent for one driver.
pub open spec fn record_google(
    driver: Seq<char>,
    email: Seq<char>,
    subject: Seq<char>,
) -> ActionView {
    ActionView::RecordConsent { driver, connection: email, subject, scope: google_scope_of(driver) }
}

/// What a failure to record a consent says.
pub open spec fn consent_failure(driver: Seq<char>, m: Seq<char>) -> Seq<char> {
    "recording consent for "@ + driver + ": "@ + m
}

/// What adding a Google account says at its end.
pub open spec fn google_added(subject: Seq<char>, email: Seq<char>) -> Seq<char> {
    "authorized google account "@ + email
        + " (one authorization serves mail, drive, and analytics; consent granted by "@ + subject
        + ") — mount it with `qfs connect /mail --driver gmail --account "@ + email + "`"@
}

fn record_consent_for(driver: &str, email: &str, subject: &str) -> (r: Action)
    ensures
        r@ == record_google(driver@, email@, subject@),
{
    Action::RecordConsent {
        driver: driver.to_owned(),
        connection: email.to_owned(),
        subject: subject.to_owned(),
        scope: google_scope(driver).to_owned(),
    }
}

fn consent_failed(driver: &str, m: &str) -> (r: Action)
    ensures
        r@ == fail(consent_failure(driver@, m@)),
{
    failure(cat4("recording consent for ", driver, ": ", m))
}

fn record_google_consents(subject: &str, email: &str, k: usize, events: &Vec<Event>) -> (r: Action)
    requires
        k <= events.len(),
        k < 0x1000,
    ensures
        r@ == google_consent_step(subject@, email@, k as int, event_views(events@)),
{
    let n: usize = events.len();
    if n == k {
        return Action::OpenProject;
    }
    match failed(events, k) {
        Some(m) => return failure(m.to_owned()),
        None => {},
    }
    let mut i: usize = 0;
    while i < 3
        invariant
            i <= 3,
            n == events.len(),
            k < 0x1000,
            k + i < n,
            failed_at(event_views(events@), k as int) is None,
            i >= 1 ==> failed_at(event_views(events@), k + 1) is None,
            i >= 2 ==> failed_at(event_views(events@), k + 2) is None,
            i >= 3 ==> failed_at(event_views(events@), k + 3) is None,
        decreases 3 - i,
    {
        if n == k + 1 + i {
            return record_consent_for(GOOGLE_DRIVERS[i], email, subject);
        }
        match failed(events, k + 1 + i) {
            Some(m) => return consent_failed(GOOGLE_DRIVERS[i], m),
            None => {},
        }
        i = i + 1;
    }
    success(
        cat7(
            "authorized google account ",
            email,
            " (one authorization serves mail, drive, and analytics; consent granted by ",
            subject,
            ") — mount it with `qfs connect /mail --driver gmail --account ",
            email,
            "`",
        ),
    )
}

/// How to pass a refresh token.
pub open spec fn token_example() -> Seq<char> {
    "printf %s \"$REFRESH_TOKEN\" | qfs account add google you@example.com"@
}

/// The next step of adding a Google account. On a terminal the user consents in the browser;
/// otherwise the refresh token comes on standard input, and the address must be given.
pub open spec fn add_google_step(
    label: Option<Seq<char>>,
    terminal: bool,
    ev: Seq<EventView>,
) -> ActionView {
    if ev.len() == 0 {
        ActionView::RequireSignedIn
    } else {
        match subject_at(ev, 0, "gmail"@) {
            Err(m) => fail(m),
            Ok(subject) => if ev.len() == 1 {
                ActionView::OpenStore
            } else if failed_at(ev, 1) is Some {
                fail(failed_at(ev, 1)->Some_0)
            } else if terminal {
                if ev.len() == 2 {
                    ActionView::GoogleConsent
                } else if failed_at(ev, 2) is Some {
                    fail("google consent failed: "@ + failed_at(ev, 2)->Some_0)
                } else {
                    google_consent_step(subject, text_at(ev, 2), 3, ev)
                }
            } else {
                match label {
                    None => fail(
                        "the token-import path needs the account email — `"@ + token_example()
                            + "`"@,
                    ),
                    Some(email) => import_token_step(subject, email, ev),
                }
            },
        }
    }
}

/// The next step of importing a refresh token.
pub open spec fn import_token_step(
    subject: Seq<char>,
    email: Seq<char>,
    ev: Seq<EventView>,
) -> ActionView {
    if ev.len() == 2 {
        ActionView::ReadStdin
    } else {
        match secret_at(ev, 2, "refresh token"@, token_example()) {
            Err(m) => fail(m),
            Ok(token) => if ev.len() == 3 {
                ActionView::RefreshTokenKey(email)
            } else {
                match ev[3] {
                    EventView::Key(key) => if ev.len() == 4 {
                        ActionView::Put(key, token)
                    } else if failed_at(ev, 4) is Some {
                        fail("storing the refresh token: "@ + failed_at(ev, 4)->Some_0)
                    } else {
                        google_consent_step(subject, email, 5, ev)
                    },
                    EventView::Failed(m) => fail(m),
                    _ => fail(""@),
                }
            },
        }
    }
}

fn import_token(subject: &str, email: &str, events: &Vec<Event>) -> (r: Action)
    requires
        events.len() >= 2,
    ensures
        r@ == import_token_step(subject@, email@, event_views(events@)),
{
    let n: usize = events.len();
    if n == 2 {
        return Action::ReadStdin;
    }
    let token: String = match read_secret(
        events,
        2,
        "refresh token",
        "printf %s \"$REFRESH_TOKEN\" | qfs account add google you@example.com",
    ) {
        Ok(v) => v,
        Err(m) => return failure(m),
    };
    if n == 3 {
        return Action::RefreshTokenKey(email.to_owned());
    }
    assert(event_views(events@)[3] == events@[3]@);
    match &events[3] {
        Event::Key(key) => {
            if n == 4 {
                return Action::Put(key.clone(), token);
            }
        },
        Event::Failed(m) => return failure(m.clone()),
        _ => return failure("".to_owned()),
    }
    match failed(events, 4) {
        Some(m) => return prefixed_failure("storing the refresh token: ", m),
        None => {},
    }
    record_google_consents(subject, email, 5, events)
}

fn add_google(label: &Option<String>, terminal: bool, events: &Vec<Event>) -> (r: Action)
    ensures
        r@ == add_google_step(opt_view(*label), terminal, event_views(events@)),
{
    let n: usize = events.len();
    if n == 0 {
        return Action::RequireSignedIn;
    }
    let subject: String = match require_signed_in(events, 0, "gmail") {
        Ok(s) => s,
        Err(m) => return failure(m),
    };
    if n == 1 {
        return Action::OpenStore;
    }
    match failed(events, 1) {
        Some(m) => return failure(m.to_owned()),
        None => {},
    }
    if terminal {
        if n == 2 {
            return Action::GoogleConsent;
        }
        match failed(events, 2) {
            Some(m) => return prefixed_failure("google consent failed: ", m),
            None => {},
        }
        return record_google_consents(subject.as_str(), text_of(events, 2), 3, events);
    }
    match label {
        None => failure(
            cat3(
                "the token-import path needs the account email — `",
                "printf %s \"$REFRESH_TOKEN\" | qfs account add google you@example.com",
                "`",
            ),
        ),
        Some(email) => import_token(subject.as_str(), email.as_str(), events),
    }
}

// ---- other accounts --------------------------------------------------------------------------

/// Why there are no accounts for a provider.
pub open spec fn no_provider(provider: Seq<char>) -> Seq<char> {
    "`"@ + provider
        + "` is not a cloud provider — accounts exist for google, github, slack, objstore, cf. A local source (SQL file, git repo) needs no account: declare it with CREATE CONNECTION / `qfs connect`"@
}

/// The token of an account, from what the prompt or standard input brought with the event 1.
pub open spec fn token_at(
    provider: Seq<char>,
    label: Seq<char>,
    terminal: bool,
    ev: Seq<EventView>,
) -> Result<Seq<char>, Seq<char>> {
    if terminal {
        match ev[1] {
            EventView::Failed(m) => Err(m),
            EventView::Text(t) => Ok(t),
            _ => Err("the token is not valid UTF-8"@),
        }
    } else {
        secret_at(
            ev,
            1,
            "token"@,
            "printf %s \"$TOKEN\" | qfs account add "@ + provider + " "@ + label,
        )
    }
}

fn account_token(provider: &str, label: &str, terminal: bool, events: &Vec<Event>) -> (r: Result<
    String,
    String,
>)
    requires
        events.len() >= 2,
    ensures
        match r {
            Ok(t) => token_at(provider@, label@, terminal, event_views(events@)) == Ok::<
                Seq<char>,
                Seq<char>,
            >(t@),
            Err(m) => token_at(provider@, label@, terminal, event_views(events@)) == Err::<
                Seq<char>,
                Seq<char>,
            >(m@),
        },
{
    assert(event_views(events@)[1] == events@[1]@);
    if terminal {
        match &events[1] {
            Event::Failed(m) => Err(m.clone()),
            Event::Text(Some(t)) => Ok(t.clone()),
            _ => Err("the token is not valid UTF-8".to_owned()),
        }
    } else {
        let example: String = cat4(
            "printf %s \"$TOKEN\" | qfs account add ",
            provider,
            " ",
            label,
        );
        read_secret(events, 1, "token", example.as_str())
    }
}

/// The next step of adding an account of a cloud provider.
pub open spec fn add_cloud_step(
    provider: Seq<char>,
    label: Seq<char>,
    terminal: bool,
    ev: Seq<EventView>,
) -> ActionView {
    if ev.len() == 0 {
        ActionView::RequireSignedIn
    } else {
        match subject_at(ev, 0, provider) {
            Err(m) => fail(m),
            Ok(subject) => if ev.len() == 1 {
                if terminal {
                    ActionView::Prompt(provider + " token (input hidden): "@)
                } else {
                    ActionView::ReadStdin
                }
            } else {
                match token_at(provider, label, terminal, ev) {
                    Err(m) => fail(m),
                    Ok(token) => if name_error(label) is Some {
                        fail(name_error(label)->Some_0.text())
                    } else if ev.len() == 2 {
                        ActionView::OpenStore
                    } else if failed_at(ev, 2) is Some {
                        fail(failed_at(ev, 2)->Some_0)
                    } else if ev.len() == 3 {
                        ActionView::Put((provider, label), token)
                    } else if failed_at(ev, 3) is Some {
                        fail("storing the token: "@ + failed_at(ev, 3)->Some_0)
                    } else if ev.len() == 4 {
                        ActionView::OpenProject
                    } else if failed_at(ev, 4) is Some {
                        fail(failed_at(ev, 4)->Some_0)
                    } else if ev.len() == 5 {
                        ActionView::RecordConsent {
                            driver: provider,
                            connection: label,
                            subject,
                            scope: ""@,
                        }
                    } else if failed_at(ev, 5) is Some {
                        fail("recording consent: "@ + failed_at(ev, 5)->Some_0)
                    } else {
                        succeed(
                            "authorized "@ + provider + " account `"@ + label
                                + "` (consent granted by "@ + subject + ")"@,
                        )
                    },
                }
            },
        }
    }
}

fn add_cloud(provider: &str, label: &str, terminal: bool, events: &Vec<Event>) -> (r: Action)
    ensures
        r@ == add_cloud_step(provider@, label@, terminal, event_views(events@)),
{
    let n: usize = events.len();
    if n == 0 {
        return Action::RequireSignedIn;
    }
    let subject: String = match require_signed_in(events, 0, provider) {
        Ok(s) => s,
        Err(m) => return failure(m),
    };
    if n == 1 {
        if terminal {
            return Action::Prompt(cat2(provider, " token (input hidden): "));
        }
        return Action::ReadStdin;
    }
    let token: String = match account_token(provider, label, terminal, events) {
        Ok(t) => t,
        Err(m) => return failure(m),
    };
    let key: CredentialKey = match key_of(provider, label) {
        Ok(k) => k,
        Err(e) => return failure(e.message()),
    };
    if n == 2 {
        return Action::OpenStore;
    }
    match failed(events, 2) {
        Some(m) => return failure(m.to_owned()),
        None => {},
    }
    if n == 3 {
        return Action::Put(key, token);
    }
    match failed(events, 3) {
        Some(m) => return prefixed_failure("storing the token: ", m),
        None => {},
    }
    if n == 4 {
        return Action::OpenProject;
    }
    match failed(events, 4) {
        Some(m) => return failure(m.to_owned()),
        None => {},
    }
    if n == 5 {
        return Action::RecordConsent {
            driver: provider.to_owned(),
            connection: label.to_owned(),
            subject,
            scope: "".to_owned(),
        };
    }
    match failed(events, 5) {
        Some(m) => return prefixed_failure("recording consent: ", m),
        None => {},
    }
    success(
        cat7(
            "authorized ",
            provider,
            " account `",
            label,
            "` (consent granted by ",
            subject.as_str(),
            ")",
        ),
    )
}

/// The line for an account, if the record is one of an account.
pub open spec fn account_line(r: Listed) -> Option<Seq<char>> {
    if r.driver@ == "google"@ {
        Some("google\t"@ + r.email@ + "\tauthorized "@ + r.created_at@)
    } else if r.cloud {
        Some(r.driver@ + "\t"@ + r.connection@ + "\tauthorized "@ + r.created_at@)
    } else {
        None
    }
}

/// The lines for the accounts among the records.
pub open spec fn account_lines(records: Seq<Listed>) -> Seq<Seq<char>>
    decreases records.len(),
{
    if records.len() == 0 {
        Seq::empty()
    } else {
        let before = account_lines(records.drop_last());
        match account_line(records.last()) {
            Some(l) => before.push(l),
            None => before,
        }
    }
}

/// What a listing of accounts says.
pub open spec fn account_listing(records: Seq<Listed>) -> Seq<char> {
    if account_lines(records).len() == 0 {
        "no service accounts yet — `qfs account add google` (or github/slack/…)"@
    } else {
        joined(account_lines(records), "\n"@)
    }
}

/// What a listing of accounts says.
pub fn list_accounts(records: &Vec<Listed>) -> (r: String)
    ensures
        r@ == account_listing(records@),
{
    let mut lines: Vec<String> = Vec::new();
    let mut i: usize = 0;
    assert(views(lines@) =~= Seq::empty());
    while i < records.len()
        invariant
            i <= records.len(),
            views(lines@) == account_lines(records@.take(i as int)),
        decreases records.len() - i,
    {
        let r: &Listed = &records[i];
        assert(records@.take(i + 1).drop_last() =~= records@.take(i as int));
        let ghost had = views(lines@);
        if same(r.driver.as_str(), "google") {
            lines.push(
                cat4("google\t", r.email.as_str(), "\tauthorized ", r.created_at.as_str()),
            );
            assert(views(lines@) =~= had.push(views(lines@).last()));
        } else if r.cloud {
            lines.push(
                cat5(
                    r.driver.as_str(),
                    "\t",
                    r.connection.as_str(),
                    "\tauthorized ",
                    r.created_at.as_str(),
                ),
            );
            assert(views(lines@) =~= had.push(views(lines@).last()));
        }
        i = i + 1;
    }
    assert(records@.take(i as int) =~= records@);
    if lines.len() == 0 {
        return "no service accounts yet — `qfs account add google` (or github/slack/…)".to_owned();
    }
    join(&lines, "\n")
}

/// The next step of listing the accounts.
pub open spec fn list_step(ev: Seq<EventView>) -> ActionView {
    if ev.len() == 0 {
        ActionView::OpenStore
    } else if failed_at(ev, 0) is Some {
        fail(failed_at(ev, 0)->Some_0)
    } else if ev.len() == 1 {
        ActionView::List(None)
    } else if failed_at(ev, 1) is Some {
        fail("listing accounts: "@ + failed_at(ev, 1)->Some_0)
    } else {
        succeed(account_listing(records_at(ev, 1)))
    }
}

fn next_of_list(events: &Vec<Event>) -> (r: Action)
    ensures
        r@ == list_step(event_views(events@)),
{
    let n: usize = events.len();
    if n == 0 {
        return Action::OpenStore;
    }
    match failed(events, 0) {
        Some(m) => return failure(m.to_owned()),
        None => {},
    }
    if n == 1 {
        return Action::List(None);
    }
    match failed(events, 1) {
        Some(m) => return prefixed_failure("listing accounts: ", m),
        None => {},
    }
    assert(event_views(events@)[1] == events@[1]@);
    let none: Vec<Listed> = Vec::new();
    assert(none@ =~= Seq::empty());
    match &events[1] {
        Event::Records(r) => success(list_accounts(r)),
        _ => success(list_accounts(&none)),
    }
}

// ---- removing --------------------------------------------------------------------------------

/// What a failure to delete a consent says.
pub open spec fn deletion_failure(driver: Seq<char>, m: Seq<char>) -> Seq<char> {
    "deleting consent for "@ + driver + ": "@ + m
}

/// The next step of removing a Google account: its token, then the consent of each of the three
/// drivers.
pub open spec fn remove_google_step(email: Seq<char>, ev: Seq<EventView>) -> ActionView {
    if ev.len() == 0 {
        ActionView::RefreshTokenKey(email)
    } else {
        match ev[0] {
            EventView::Key(key) => if ev.len() == 1 {
                ActionView::OpenStore
            } else if failed_at(ev, 1) is Some {
                fail(failed_at(ev, 1)->Some_0)
            } else if ev.len() == 2 {
                ActionView::Remove(key)
            } else if failed_at(ev, 2) is Some {
                fail("removing the refresh token: "@ + failed_at(ev, 2)->Some_0)
            } else if ev.len() == 3 {
                ActionView::OpenProject
            } else if failed_at(ev, 3) is Some {
                fail(failed_at(ev, 3)->Some_0)
            } else if ev.len() == 4 {
                delete_google(GOOGLE_DRIVERS[0]@, email)
            } else if failed_at(ev, 4) is Some {
                fail(deletion_failure(GOOGLE_DRIVERS[0]@, failed_at(ev, 4)->Some_0))
            } else if ev.len() == 5 {
                delete_google(GOOGLE_DRIVERS[1]@, email)
            } else if failed_at(ev, 5) is Some {
                fail(deletion_failure(GOOGLE_DRIVERS[1]@, failed_at(ev, 5)->Some_0))
            } else if ev.len() == 6 {
                delete_google(GOOGLE_DRIVERS[2]@, email)
            } else if failed_at(ev, 6) is Some {
                fail(deletion_failure(GOOGLE_DRIVERS[2]@, failed_at(ev, 6)->Some_0))
            } else {
                succeed(
                    "removed google account "@ + email + " (token and consents deleted)"@,
                )
            },
            EventView::Failed(m) => fail(m),
            _ => fail(""@),
        }
    }
}

/// The deletion of a Google account's consent for one driver.
pub open spec fn delete_google(driver: Seq<char>, email: Seq<char>) -> ActionView {
    ActionView::DeleteConsent { driver, connection: email }
}

fn delete_consent(driver: &str, connection: &str) -> (r: Action)
    ensures
        r@ == (ActionView::DeleteConsent { driver: driver@, connection: connection@ }),
{
    Action::DeleteConsent { driver: driver.to_owned(), connection: connection.to_owned() }
}

fn deletion_failed(driver: &str, m: &str) -> (r: Action)
    ensures
        r@ == fail(deletion_failure(driver@, m@)),
{
    failure(cat4("deleting consent for ", driver, ": ", m))
}

fn remove_google(email: &str, events: &Vec<Event>) -> (r: Action)
    ensures
        r@ == remove_google_step(email@, event_views(events@)),
{
    let n: usize = events.len();
    if n == 0 {
        return Action::RefreshTokenKey(email.to_owned());
    }
    assert(event_views(events@)[0] == events@[0]@);
    let key: &CredentialKey = match &events[0] {
        Event::Key(key) => key,
        Event::Failed(m) => return failure(m.clone()),
        _ => return failure("".to_owned()),
    };
    if n == 1 {
        return Action::OpenStore;
    }
    match failed(events, 1) {
        Some(m) => return failure(m.to_owned()),
        None => {},
    }
    if n == 2 {
        return Action::Remove(key.clone());
    }
    match failed(events, 2) {
        Some(m) => return prefixed_failure("removing the refresh token: ", m),
        None => {},
    }
    if n == 3 {
        return Action::OpenProject;
    }
    match failed(events, 3) {
        Some(m) => return failure(m.to_owned()),
        None => {},
    }
    let mut i: usize = 0;
    while i < 3
        invariant
            i <= 3,
            n == events.len(),
            3 + i < n,
            event_views(events@)[0] is Key,
            forall|j: int| 1 <= j < 4 + i ==> failed_at(event_views(events@), j) is None,
        decreases 3 - i,
    {
        assert(failed_at(event_views(events@), 1) is None);
        assert(failed_at(event_views(events@), 2) is None);
        assert(failed_at(event_views(events@), 3) is None);
        assert(i >= 1 ==> failed_at(event_views(events@), 4) is None);
        assert(i >= 2 ==> failed_at(event_views(events@), 5) is None);
        if n == 4 + i {
            return delete_consent(GOOGLE_DRIVERS[i], email);
        }
        match failed(events, 4 + i) {
            Some(m) => return deletion_failed(GOOGLE_DRIVERS[i], m),
            None => {},
        }
        i = i + 1;
    }
    assert(failed_at(event_views(events@), 4) is None);
    assert(failed_at(event_views(events@), 5) is None);
    assert(failed_at(event_views(events@), 6) is None);
    success(cat3("removed google account ", email, " (token and consents deleted)"))
}

/// The next step of removing an account of another provider.
pub open spec fn remove_cloud_step(
    provider: Seq<char>,
    label: Seq<char>,
    ev: Seq<EventView>,
) -> ActionView {
    if name_error(label) is Some {
        fail(name_error(label)->Some_0.text())
    } else if ev.len() == 0 {
        ActionView::OpenStore
    } else if failed_at(ev, 0) is Some {
        fail(failed_at(ev, 0)->Some_0)
    } else if ev.len() == 1 {
        ActionView::Remove((provider, label))
    } else if failed_at(ev, 1) is Some {
        fail("removing the token: "@ + failed_at(ev, 1)->Some_0)
    } else if ev.len() == 2 {
        ActionView::OpenProject
    } else if failed_at(ev, 2) is Some {
        fail(failed_at(ev, 2)->Some_0)
    } else if ev.len() == 3 {
        ActionView::DeleteConsent { driver: provider, connection: label }
    } else if failed_at(ev, 3) is Some {
        fail(deletion_failure(provider, failed_at(ev, 3)->Some_0))
    } else {
        succeed(
            "removed "@ + provider + " account `"@ + label + "` (token and consent deleted)"@,
        )
    }
}

fn remove_cloud(provider: &str, label: &str, events: &Vec<Event>) -> (r: Action)
    ensures
        r@ == remove_cloud_step(provider@, label@, event_views(events@)),
{
    let n: usize = events.len();
    let key: CredentialKey = match key_of(provider, label) {
        Ok(k) => k,
        Err(e) => return failure(e.message()),
    };
    if n == 0 {
        return Action::OpenStore;
    }
    match failed(events, 0) {
        Some(m) => return failure(m.to_owned()),
        None => {},
    }
    if n == 1 {
        return Action::Remove(key);
    }
    match failed(events, 1) {
        Some(m) => return prefixed_failure("removing the token: ", m),
        None => {},
    }
    if n == 2 {
        return Action::OpenProject;
    }
    match failed(events, 2) {
        Some(m) => return failure(m.to_owned()),
        None => {},
    }
    if n == 3 {
        return delete_consent(provider, label);
    }
    match failed(events, 3) {
        Some(m) => return deletion_failed(provider, m),
        None => {},
    }
    success(cat5("removed ", provider, " account `", label, "` (token and consent deleted)"))
}

// ---- rotating and revoking -------------------------------------------------------------------

/// The next step of replacing an account's secret. `cloud` says whether the provider is one of the
/// cloud: then the user must have signed in before standard input is touched.
pub open spec fn rotate_step(
    provider: Seq<char>,
    label: Seq<char>,
    cloud: bool,
    ev: Seq<EventView>,
) -> ActionView {
    let k: int = if cloud {
        1
    } else {
        0
    };
    let place = provider + "/"@ + label;
    if cloud && ev.len() == 0 {
        ActionView::RequireSignedIn
    } else if cloud && subject_at(ev, 0, provider) is Err {
        fail(subject_at(ev, 0, provider)->Err_0)
    } else if ev.len() == k {
        ActionView::ReadStdin
    } else {
        match secret_at(
            ev,
            k,
            "new secret"@,
            "printf %s \"$TOKEN\" | qfs account rotate "@ + provider + " "@ + label,
        ) {
            Err(m) => fail(m),
            Ok(value) => if name_error(label) is Some {
                fail(name_error(label)->Some_0.text())
            } else if ev.len() == k + 1 {
                ActionView::OpenStore
            } else if failed_at(ev, k + 1) is Some {
                fail(failed_at(ev, k + 1)->Some_0)
            } else if ev.len() == k + 2 {
                ActionView::Rotate((provider, label), value)
            } else if failed_at(ev, k + 2) is Some {
                fail("rotating the credential: "@ + failed_at(ev, k + 2)->Some_0)
            } else if ev.len() == k + 3 {
                ActionView::Audit { verb: "ROTATE"@, target: place }
            } else {
                succeed(
                    "rotated "@ + place + " (secret re-minted; any revocation cleared)"@,
                )
            },
        }
    }
}

fn rotate_account(provider: &str, label: &str, cloud: bool, events: &Vec<Event>) -> (r: Action)
    ensures
        r@ == rotate_step(provider@, label@, cloud, event_views(events@)),
{
    let n: usize = events.len();
    let mut k: usize = 0;
    if cloud {
        if n == 0 {
            return Action::RequireSignedIn;
        }
        match require_signed_in(events, 0, provider) {
            Ok(_) => {},
            Err(m) => return failure(m),
        }
        k = 1;
    }
    if n == k {
        return Action::ReadStdin;
    }
    let example: String = cat4(
        "printf %s \"$TOKEN\" | qfs account rotate ",
        provider,
        " ",
        label,
    );
    let value: String = match read_secret(events, k, "new secret", example.as_str()) {
        Ok(v) => v,
        Err(m) => return failure(m),
    };
    let key: CredentialKey = match key_of(provider, label) {
        Ok(key) => key,
        Err(e) => return failure(e.message()),
    };
    if n == k + 1 {
        return Action::OpenStore;
    }
    match failed(events, k + 1) {
        Some(m) => return failure(m.to_owned()),
        None => {},
    }
    if n == k + 2 {
        return Action::Rotate(key, value);
    }
    match failed(events, k + 2) {
        Some(m) => return prefixed_failure("rotating the credential: ", m),
        None => {},
    }
    let place: String = cat3(provider, "/", label);
    if n == k + 3 {
        return Action::Audit { verb: "ROTATE".to_owned(), target: place };
    }
    success(cat3("rotated ", place.as_str(), " (secret re-minted; any revocation cleared)"))
}

/// The next step of revoking an account.
pub open spec fn revoke_step(
    provider: Seq<char>,
    label: Seq<char>,
    ev: Seq<EventView>,
) -> ActionView {
    let place = provider + "/"@ + label;
    if name_error(label) is Some {
        fail(name_error(label)->Some_0.text())
    } else if ev.len() == 0 {
        ActionView::OpenStore
    } else if failed_at(ev, 0) is Some {
        fail(failed_at(ev, 0)->Some_0)
    } else if ev.len() == 1 {
        ActionView::Revoke((provider, label))
    } else if failed_at(ev, 1) is Some {
        fail("revoking the account: "@ + failed_at(ev, 1)->Some_0)
    } else if ev.len() == 2 {
        ActionView::Audit { verb: "REVOKE"@, target: place }
    } else {
        succeed(
            "revoked "@ + place
                + " (it can no longer resolve until re-minted with `qfs account rotate`)"@,
        )
    }
}

fn revoke_account(provider: &str, label: &str, events: &Vec<Event>) -> (r: Action)
    ensures
        r@ == revoke_step(provider@, label@, event_views(events@)),
{
    let n: usize = events.len();
    let key: CredentialKey = match key_of(provider, label) {
        Ok(key) => key,
        Err(e) => return failure(e.message()),
    };
    if n == 0 {
        return Action::OpenStore;
    }
    match failed(events, 0) {
        Some(m) => return failure(m.to_owned()),
        None => {},
    }
    if n == 1 {
        return Action::Revoke(key);
    }
    match failed(events, 1) {
        Some(m) => return prefixed_failure("revoking the account: ", m),
        None => {},
    }
    let place: String = cat3(provider, "/", label);
    if n == 2 {
        return Action::Audit { verb: "REVOKE".to_owned(), target: place };
    }
    success(
        cat3(
            "revoked ",
            place.as_str(),
            " (it can no longer resolve until re-minted with `qfs account rotate`)",
        ),
    )
}

// ---- all commands ----------------------------------------------------------------------------

/// The next step of a command.
pub open spec fn step(
    action: AccountAction,
    cloud: bool,
    terminal: bool,
    ev: Seq<EventView>,
) -> ActionView {
    match action {
        AccountAction::AppAdd { provider } => app_add_step(provider@, ev),
        AccountAction::AppList => app_list_step(ev),
        AccountAction::AppRemove { provider } => app_remove_step(provider@, ev),
        AccountAction::Add { provider, label } => if provider@ == "google"@ {
            add_google_step(opt_view(label), terminal, ev)
        } else if cloud {
            add_cloud_step(
                provider@,
                match label {
                    Some(l) => l@,
                    None => "default"@,
                },
                terminal,
                ev,
            )
        } else {
            fail(no_provider(provider@))
        },
        AccountAction::List => list_step(ev),
        AccountAction::Remove { provider, label } => if provider@ == "google"@ {
            remove_google_step(label@, ev)
        } else {
            remove_cloud_step(provider@, label@, ev)
        },
        AccountAction::Rotate { provider, label } => rotate_step(provider@, label@, cloud, ev),
        AccountAction::Revoke { provider, label } => revoke_step(provider@, label@, ev),
    }
}

/// The next step of a command, from what has happened so far. `cloud` says whether its provider is
/// a driver of the cloud, `terminal` whether standard input is a terminal.
pub fn run_inner(action: &AccountAction, cloud: bool, terminal: bool, events: &Vec<Event>) -> (r:
    Action)
    ensures
        r@ == step(*action, cloud, terminal, event_views(events@)),
{
    match action {
        AccountAction::AppAdd { provider } => app_add(provider.as_str(), events),
        AccountAction::AppList => next_of_app_list(events),
        AccountAction::AppRemove { provider } => app_remove(provider.as_str(), events),
        AccountAction::Add { provider, label } => {
            if same(provider.as_str(), "google") {
                add_google(label, terminal, events)
            } else if cloud {
                let name: &str = match label {
                    Some(l) => l.as_str(),
                    None => "default",
                };
                add_cloud(provider.as_str(), name, terminal, events)
            } else {
                failure(
                    cat3(
                        "`",
                        provider.as_str(),
                        "` is not a cloud provider — accounts exist for google, github, slack, objstore, cf. A local source (SQL file, git repo) needs no account: declare it with CREATE CONNECTION / `qfs connect`",
                    ),
                )
            }
        },
        AccountAction::List => next_of_list(events),
        AccountAction::Remove { provider, label } => {
            if same(provider.as_str(), "google") {
                remove_google(label.as_str(), events)
            } else {
                remove_cloud(provider.as_str(), label.as_str(), events)
            }
        },
        AccountAction::Rotate { provider, label } => rotate_account(
            provider.as_str(),
            label.as_str(),
            cloud,
            events,
        ),
        AccountAction::Revoke { provider, label } => revoke_account(
            provider.as_str(),
            label.as_str(),
            events,
        ),
    }
}

// ---- laws ------------------------------------------------------------------------------------

/// No account is added before the user has signed in: every step but the question itself, and
/// giving up, comes behind a signed-in user. The same holds of replacing a cloud account's secret.
pub proof fn law_accounts_need_sign_in(
    action: AccountAction,
    cloud: bool,
    terminal: bool,
    ev: Seq<EventView>,
)
    requires
        action is Add || (action is Rotate && cloud),
    ensures
        ({
            let next = step(action, cloud, terminal, ev);
            next is RequireSignedIn || (next is Finish && next->Finish_1 is Err) || (ev.len() > 0
                && ev[0] is SignedIn)
        }),
{
}

/// One authorization serves all three Google drivers: a Google account is reported as added only
/// after a consent for each of them was recorded under its address.
pub proof fn law_google_account_serves_all_drivers(
    label: Option<Seq<char>>,
    terminal: bool,
    ev: Seq<EventView>,
    d: int,
)
    requires
        0 <= d < 3,
        add_google_step(label, terminal, ev) is Finish,
        add_google_step(label, terminal, ev)->Finish_1 is Ok,
    ensures
        exists|i: int, email: Seq<char>|
            0 <= i < ev.len() && add_google_step(label, terminal, #[trigger] ev.take(i))
                == #[trigger] record_google(GOOGLE_DRIVERS[d]@, email, ev[0]->SignedIn_0),
{
    let k: int = if terminal {
        3
    } else {
        5
    };
    let email = if terminal {
        text_at(ev, 2)
    } else {
        label->Some_0
    };
    let i = k + 1 + d;
    assert(ev.len() >= k + 4);
    let t = ev.take(i);
    assert(t.len() == i);
    assert(forall|j: int| 0 <= j < i ==> t[j] == ev[j]);
    assert(add_google_step(label, terminal, t) == record_google(
        GOOGLE_DRIVERS[d]@,
        email,
        ev[0]->SignedIn_0,
    ));
}

/// Removing a Google account is complete: it is reported as removed only after its token was removed
/// and the consent of each of the three drivers deleted.
pub proof fn law_google_removal_is_complete(email: Seq<char>, ev: Seq<EventView>, d: int)
    requires
        0 <= d < 3,
        remove_google_step(email, ev) is Finish,
        remove_google_step(email, ev)->Finish_1 is Ok,
    ensures
        ev.len() >= 7,
        remove_google_step(email, ev.take(2)) == ActionView::Remove(ev[0]->Key_0),
        remove_google_step(email, ev.take(4 + d)) == delete_google(GOOGLE_DRIVERS[d]@, email),
{
    assert(ev.len() >= 7);
    let t = ev.take(4 + d);
    assert(forall|j: int| 0 <= j < 4 + d ==> t[j] == ev[j]);
    let u = ev.take(2);
    assert(forall|j: int| 0 <= j < 2 ==> u[j] == ev[j]);
}

/// What a command says at its end tells nothing of the secret that was read from standard input or
/// the prompt. (What the browser brings is no secret but the account's address.)
pub proof fn law_messages_hide_the_secret(
    action: AccountAction,
    cloud: bool,
    terminal: bool,
    a: Seq<EventView>,
    b: Seq<EventView>,
)
    requires
        alike_but_texts(a, b),
        !(terminal && action is Add && action->Add_provider@ == "google"@),
    ensures
        step(action, cloud, terminal, a) is Finish ==> step(action, cloud, terminal, b) == step(
            action,
            cloud,
            terminal,
            a,
        ),
{
    assert forall|i: int| 0 <= i < a.len() implies failed_at(a, i) == failed_at(b, i) by {
        assert(a[i] == b[i] || (a[i] is Text && b[i] is Text));
    }
    assert forall|i: int, what: Seq<char>, example: Seq<char>| 0 <= i < a.len() implies {
        let x = #[trigger] secret_at(a, i, what, example);
        let y = secret_at(b, i, what, example);
        (x is Ok <==> y is Ok) && (x is Err ==> x == y)
    } by {
        assert(a[i] == b[i] || (a[i] is Text && b[i] is Text));
    }
    assert forall|i: int, driver: Seq<char>| 0 <= i < a.len() implies #[trigger] subject_at(
        a,
        i,
        driver,
    ) == subject_at(b, i, driver) by {
        assert(a[i] == b[i] || (a[i] is Text && b[i] is Text));
    }
    if a.len() > 0 {
        assert(a[0] == b[0] || (a[0] is Text && b[0] is Text));
    }
    if a.len() > 1 {
        assert(a[1] == b[1] || (a[1] is Text && b[1] is Text));
    }
    if a.len() > 3 {
        assert(a[3] == b[3] || (a[3] is Text && b[3] is Text));
    }
}

/// Every command comes to an end: after nine events nothing more is asked for.
pub proof fn law_commands_end(
    action: AccountAction,
    cloud: bool,
    terminal: bool,
    ev: Seq<EventView>,
)
    requires
        ev.len() >= 9,
    ensures
        step(action, cloud, terminal, ev) is Finish,
{
}

/// The credential that an action writes or takes away.
pub open spec fn touched(a: ActionView) -> Option<(Seq<char>, Seq<char>)> {
    match a {
        ActionView::Put(key, _) => Some(key),
        ActionView::Rotate(key, _) => Some(key),
        ActionView::Revoke(key) => Some(key),
        ActionView::Remove(key) => Some(key),
        _ => None,
    }
}

/// The credential that a command is about; that of a Google account is named by the key that the
/// script asks for.
pub open spec fn own_key(action: AccountAction) -> Option<(Seq<char>, Seq<char>)> {
    match action {
        AccountAction::AppAdd { provider } => Some((provider@ + "-app"@, "default"@)),
        AccountAction::AppRemove { provider } => Some((provider@ + "-app"@, "default"@)),
        AccountAction::Add { provider, label } => if provider@ == "google"@ {
            None
        } else {
            Some(
                (
                    provider@,
                    match label {
                        Some(l) => l@,
                        None => "default"@,
                    },
                ),
            )
        },
        AccountAction::Remove { provider, label } => if provider@ == "google"@ {
            None
        } else {
            Some((provider@, label@))
        },
        AccountAction::Rotate { provider, label } => Some((provider@, label@)),
        AccountAction::Revoke { provider, label } => Some((provider@, label@)),
        _ => None,
    }
}

/// A command leaves every credential alone but its own: removing an application keeps the accounts'
/// tokens, and revoking one account keeps the others working.
pub proof fn law_commands_touch_only_their_own(
    action: AccountAction,
    cloud: bool,
    terminal: bool,
    ev: Seq<EventView>,
)
    ensures
        touched(step(action, cloud, terminal, ev)) matches Some(key) ==> match own_key(action) {
            Some(own) => key == own,
            None => exists|i: int| 0 <= i < ev.len() && #[trigger] ev[i] == EventView::Key(key),
        },
{
    let next = step(action, cloud, terminal, ev);
    if own_key(action) is None && touched(next) is Some {
        let i: int = if action is Add {
            3
        } else {
            0
        };
        assert(ev[i] == EventView::Key(touched(next)->Some_0));
    }
}

/// A step that fails ends the command: the command fails, shows no line, and its message ends with
/// what the step said. Writing the audit trail is the one step that may fail unnoticed.
pub proof fn law_a_failing_step_ends_the_command(
    action: AccountAction,
    cloud: bool,
    terminal: bool,
    ev: Seq<EventView>,
    m: Seq<char>,
)
    requires
        !(step(action, cloud, terminal, ev) is Finish),
        !(step(action, cloud, terminal, ev) is Audit),
    ensures
        ({
            let next = step(action, cloud, terminal, ev.push(EventView::Failed(m)));
            next is Finish && next->Finish_0.len() == 0 && next->Finish_1 is Err && ends(
                next->Finish_1->Err_0,
                m,
            )
        }),
{
    let all = ev.push(EventView::Failed(m));
    assert(all[ev.len() as int] == EventView::Failed(m));
    assert forall|i: int| 0 <= i < ev.len() implies all[i] == ev[i] by {}
    if ev.len() > 0 {
        assert(all[0] == ev[0]);
    }
    if ev.len() > 1 {
        assert(all[1] == ev[1]);
    }
    if ev.len() > 2 {
        assert(all[2] == ev[2]);
    }
    if ev.len() > 3 {
        assert(all[3] == ev[3]);
    }
    let next = step(action, cloud, terminal, all);
    assert(next is Finish && next->Finish_1 is Err);
    let message = next->Finish_1->Err_0;
    let before = message.take(message.len() - m.len());
    assert(message.len() >= m.len());
    assert(message =~= before + m);
    lemma_mentions(before, m, Seq::empty());
}

/// What a command asked for after its first `i` steps.
pub open spec fn asked(
    action: AccountAction,
    cloud: bool,
    terminal: bool,
    ev: Seq<EventView>,
    i: int,
) -> ActionView {
    step(action, cloud, terminal, ev.take(i))
}

/// Whether step `i` was taken and came out well.
pub open spec fn went_well(ev: Seq<EventView>, i: int) -> bool {
    0 <= i < ev.len() && !(ev[i] is Failed)
}

/// The credential store and the project's database are opened before anything is done with them.
pub proof fn law_stores_are_opened_before_use(
    action: AccountAction,
    cloud: bool,
    terminal: bool,
    ev: Seq<EventView>,
)
    ensures
        ({
            let next = step(action, cloud, terminal, ev);
            &&& (touched(next) is Some || next is List) ==> exists|i: int|
                #[trigger] went_well(ev, i) && asked(action, cloud, terminal, ev, i) is OpenStore
            &&& (next is RecordConsent || next is DeleteConsent) ==> exists|i: int|
                #[trigger] went_well(ev, i) && asked(action, cloud, terminal, ev, i) is OpenProject
        }),
{
    let next = step(action, cloud, terminal, ev);
    let google = match action {
        AccountAction::Add { provider, .. } => provider@ == "google"@,
        AccountAction::Remove { provider, .. } => provider@ == "google"@,
        _ => false,
    };
    if touched(next) is Some || next is List {
        let i: int = match action {
            AccountAction::AppAdd { .. } => 1,
            AccountAction::Add { .. } => if google {
                1
            } else {
                2
            },
            AccountAction::Remove { .. } => if google {
                1
            } else {
                0
            },
            AccountAction::Rotate { .. } => if cloud {
                2
            } else {
                1
            },
            _ => 0,
        };
        assert(went_well(ev, i));
        assert(i > 0 ==> ev.take(i)[0] == ev[0]);
        assert(i > 1 ==> ev.take(i)[1] == ev[1]);
        assert(asked(action, cloud, terminal, ev, i) is OpenStore);
    }
    if next is RecordConsent || next is DeleteConsent {
        let i: int = match action {
            AccountAction::Add { .. } => if !google {
                4
            } else if terminal {
                3
            } else {
                5
            },
            _ => if google {
                3
            } else {
                2
            },
        };
        assert(went_well(ev, i));
        assert(ev.take(i)[0] == ev[0]);
        assert(ev.take(i)[1] == ev[1]);
        assert(i > 2 ==> ev.take(i)[2] == ev[2]);
        assert(i > 3 ==> ev.take(i)[3] == ev[3]);
        assert(i > 4 ==> ev.take(i)[4] == ev[4]);
        assert(asked(action, cloud, terminal, ev, i) is OpenProject);
    }
}

/// Whether step `i` read the text that `value` was taken from: a line typed at the prompt as it
/// is, standard input without its line end.
pub open spec fn was_read(
    action: AccountAction,
    cloud: bool,
    terminal: bool,
    ev: Seq<EventView>,
    i: int,
    value: Seq<char>,
) -> bool {
    &&& went_well(ev, i)
    &&& ev[i] is Text
    &&& match asked(action, cloud, terminal, ev, i) {
        ActionView::ReadStdin => value == chomped(ev[i]->Text_0),
        ActionView::Prompt(_) => value == ev[i]->Text_0,
        _ => false,
    }
}

/// The secret that is stored is the one that was read: at a prompt only on a terminal, and never
/// from both.
pub proof fn law_the_secret_stored_is_the_one_read(
    action: AccountAction,
    cloud: bool,
    terminal: bool,
    ev: Seq<EventView>,
)
    ensures
        step(action, cloud, terminal, ev) matches ActionView::Put(_, value) ==> exists|i: int|
            was_read(action, cloud, terminal, ev, i, value),
        step(action, cloud, terminal, ev) matches ActionView::Rotate(_, value) ==> exists|i: int|
            was_read(action, cloud, terminal, ev, i, value),
        step(action, cloud, terminal, ev) is Prompt ==> terminal,
{
    let next = step(action, cloud, terminal, ev);
    reveal_strlit("");
    if next is Put || next is Rotate {
        let value = match next {
            ActionView::Put(_, v) => v,
            ActionView::Rotate(_, v) => v,
            _ => Seq::empty(),
        };
        let google = match action {
            AccountAction::Add { provider, .. } => provider@ == "google"@,
            _ => false,
        };
        let i: int = match action {
            AccountAction::AppAdd { .. } => 0,
            AccountAction::Add { .. } => if google {
                2
            } else {
                1
            },
            _ => if cloud {
                1
            } else {
                0
            },
        };
        assert(i > 0 ==> ev.take(i)[0] == ev[0]);
        assert(i > 1 ==> ev.take(i)[1] == ev[1]);
        if !(ev[i] is Text) {
            assert(text_at(ev, i).len() == 0);
            assert(chomped(text_at(ev, i)).len() == 0);
        }
        assert(was_read(action, cloud, terminal, ev, i, value));
    }
}

/// A command that succeeds has done all of its work, each part on the account that it was given:
/// an account that is added is stored and its consent recorded for the user who signed in, one
/// that is removed loses both, and a secret that is replaced or revoked is named in the audit
/// trail.
pub proof fn law_success_means_the_work_was_done(
    action: AccountAction,
    cloud: bool,
    terminal: bool,
    ev: Seq<EventView>,
)
    requires
        step(action, cloud, terminal, ev) is Finish,
        step(action, cloud, terminal, ev)->Finish_1 is Ok,
    ensures
        own_key(action) matches Some(own) ==> exists|i: int|
            #[trigger] went_well(ev, i) && touched(asked(action, cloud, terminal, ev, i)) == Some(
                own,
            ) && match asked(action, cloud, terminal, ev, i) {
                ActionView::Put(..) => action is AppAdd || action is Add,
                ActionView::Remove(_) => action is AppRemove || action is Remove,
                ActionView::Rotate(..) => action is Rotate,
                _ => action is Revoke,
            },
        (action is Add && own_key(action) is Some) ==> exists|i: int|
            #[trigger] went_well(ev, i) && asked(action, cloud, terminal, ev, i)
                == (ActionView::RecordConsent {
                driver: own_key(action)->Some_0.0,
                connection: own_key(action)->Some_0.1,
                subject: ev[0]->SignedIn_0,
                scope: Seq::empty(),
            }),
        (action is Remove && own_key(action) is Some) ==> exists|i: int|
            #[trigger] went_well(ev, i) && asked(action, cloud, terminal, ev, i)
                == (ActionView::DeleteConsent {
                driver: own_key(action)->Some_0.0,
                connection: own_key(action)->Some_0.1,
            }),
        (action is Rotate || action is Revoke) ==> ({
            let last = asked(action, cloud, terminal, ev, ev.len() - 1);
            ev.len() > 0 && last == (ActionView::Audit {
                verb: if action is Rotate {
                    "ROTATE"@
                } else {
                    "REVOKE"@
                },
                target: own_key(action)->Some_0.0 + "/"@ + own_key(action)->Some_0.1,
            }) || asked(action, cloud, terminal, ev, ev.len() - 1) is Finish
        }),
{
    reveal_strlit("");
    assert(""@ =~= Seq::<char>::empty());
    match action {
        AccountAction::AppAdd { provider } => {
            assert(ev.take(2)[0] == ev[0] && ev.take(2)[1] == ev[1]);
            assert(went_well(ev, 2));
            assert(asked(action, cloud, terminal, ev, 2) is Put);
        },
        AccountAction::AppRemove { provider } => {
            assert(ev.take(1)[0] == ev[0]);
            assert(went_well(ev, 1));
            assert(asked(action, cloud, terminal, ev, 1) is Remove);
        },
        AccountAction::Add { provider, label } => {
            if provider@ != "google"@ {
                assert(forall|k: int| 0 <= k < 3 ==> ev.take(3)[k] == ev[k]);
                assert(forall|k: int| 0 <= k < 5 ==> ev.take(5)[k] == ev[k]);
                assert(ev.take(3)[0] == ev[0] && ev.take(3)[1] == ev[1] && ev.take(3)[2] == ev[2]);
                assert(ev.take(5)[0] == ev[0] && ev.take(5)[1] == ev[1] && ev.take(5)[2] == ev[2]
                    && ev.take(5)[3] == ev[3] && ev.take(5)[4] == ev[4]);
                assert(went_well(ev, 3));
                assert(asked(action, cloud, terminal, ev, 3) is Put);
                assert(went_well(ev, 5));
                assert(asked(action, cloud, terminal, ev, 5) is RecordConsent);
            }
        },
        AccountAction::Remove { provider, label } => {
            if provider@ != "google"@ {
                assert(ev.take(1)[0] == ev[0]);
                assert(ev.take(3)[0] == ev[0] && ev.take(3)[1] == ev[1] && ev.take(3)[2] == ev[2]);
                assert(went_well(ev, 1));
                assert(asked(action, cloud, terminal, ev, 1) is Remove);
                assert(went_well(ev, 3));
                assert(asked(action, cloud, terminal, ev, 3) is DeleteConsent);
            }
        },
        AccountAction::Rotate { provider, label } => {
            let k: int = if cloud {
                1
            } else {
                0
            };
            assert(ev.take(k + 2)[0] == ev[0] && ev.take(k + 2)[1] == ev[1]);
            assert(ev.take(k + 2)[k] == ev[k] && ev.take(k + 2)[k + 1] == ev[k + 1]);
            assert(went_well(ev, k + 2));
            assert(asked(action, cloud, terminal, ev, k + 2) is Rotate);
            let last = ev.take(ev.len() - 1);
            assert(last[0] == ev[0] && last[1] == ev[1] && last[k] == ev[k] && last[k + 1] == ev[k
                + 1] && last[k + 2] == ev[k + 2]);
        },
        AccountAction::Revoke { provider, label } => {
            assert(ev.take(1)[0] == ev[0]);
            assert(went_well(ev, 1));
            assert(asked(action, cloud, terminal, ev, 1) is Revoke);
            let last = ev.take(ev.len() - 1);
            assert(last[0] == ev[0] && last[1] == ev[1]);
        },
        _ => {},
    }
}

/// A Google token is kept under the key of the account's email, and the consents are recorded and
/// deleted under that email: on a terminal the one that the consent in the browser gave, else the
/// one that the command was given.
pub proof fn law_google_accounts_go_by_their_email(
    label: Option<Seq<char>>,
    email: Seq<char>,
    terminal: bool,
    ev: Seq<EventView>,
)
    ensures
        match add_google_step(label, terminal, ev) {
            ActionView::RefreshTokenKey(e) => !terminal && label == Some(e),
            ActionView::Put(key, _) => ev[3] == EventView::Key(key) && add_google_step(
                label,
                terminal,
                ev.take(3),
            ) == ActionView::RefreshTokenKey(label->Some_0),
            ActionView::RecordConsent { driver, connection, subject, scope } => {
                &&& ev[0] == EventView::SignedIn(subject)
                &&& scope == google_scope_of(driver)
                &&& terminal ==> add_google_step(label, terminal, ev.take(2)) is GoogleConsent
                    && connection == text_at(ev, 2)
                &&& !terminal ==> label == Some(connection)
            },
            _ => true,
        },
        match remove_google_step(email, ev) {
            ActionView::RefreshTokenKey(e) => e == email,
            ActionView::DeleteConsent { connection, .. } => connection == email,
            _ => true,
        },
{
    if ev.len() > 3 {
        assert(ev.take(3)[0] == ev[0] && ev.take(3)[1] == ev[1] && ev.take(3)[2] == ev[2]);
    }
    if ev.len() > 2 {
        assert(ev.take(2)[0] == ev[0] && ev.take(2)[1] == ev[1]);
    }
}

/// The message of a command that succeeds names what it was about: the provider, and the account.
pub proof fn law_success_names_the_account(
    action: AccountAction,
    cloud: bool,
    terminal: bool,
    ev: Seq<EventView>,
)
    requires
        step(action, cloud, terminal, ev) is Finish,
        step(action, cloud, terminal, ev)->Finish_1 is Ok,
    ensures
        ({
            let message = step(action, cloud, terminal, ev)->Finish_1->Ok_0;
            match action {
                AccountAction::AppAdd { provider } => mentions(message, provider@),
                AccountAction::AppRemove { provider } => mentions(message, provider@),
                AccountAction::Add { provider, .. } => own_key(action) is Some ==> mentions(
                    message,
                    provider@,
                ) && mentions(message, own_key(action)->Some_0.1) && mentions(
                    message,
                    ev[0]->SignedIn_0,
                ),
                AccountAction::Remove { provider, label } => mentions(message, label@) && mentions(
                    message,
                    provider@,
                ),
                AccountAction::Rotate { provider, label } => mentions(
                    message,
                    provider@ + "/"@ + label@,
                ),
                AccountAction::Revoke { provider, label } => mentions(
                    message,
                    provider@ + "/"@ + label@,
                ),
                _ => true,
            }
        }),
{
    let message = step(action, cloud, terminal, ev)->Finish_1->Ok_0;
    match action {
        AccountAction::AppAdd { provider } => {
            let a = "registered the "@;
            lemma_mentions(a, provider@, message.skip((a.len() + provider@.len()) as int));
            assert(message =~= a + provider@ + message.skip((a.len() + provider@.len()) as int));
        },
        AccountAction::AppRemove { provider } => {
            lemma_mentions("removed the "@, provider@, " OAuth app registration"@);
        },
        AccountAction::Add { provider, label } => {
            if provider@ != "google"@ {
                let l = own_key(action)->Some_0.1;
                let s = ev[0]->SignedIn_0;
                let a = "authorized "@;
                let b = a + provider@ + " account `"@;
                let c = b + l + "` (consent granted by "@;
                assert(message =~= a + provider@ + message.skip((a.len() + provider@.len()) as int));
                lemma_mentions(a, provider@, message.skip((a.len() + provider@.len()) as int));
                assert(message =~= b + l + message.skip((b.len() + l.len()) as int));
                lemma_mentions(b, l, message.skip((b.len() + l.len()) as int));
                assert(message =~= c + s + ")"@);
                lemma_mentions(c, s, ")"@);
            }
        },
        AccountAction::Remove { provider, label } => {
            if provider@ == "google"@ {
                let a = "removed google account "@;
                lemma_mentions(a, label@, " (token and consents deleted)"@);
                reveal_strlit("removed google account ");
                reveal_strlit("google");
                let p = a.take(8);
                let q = a.skip(14) + label@ + " (token and consents deleted)"@;
                assert(message =~= p + "google"@ + q);
                lemma_mentions(p, "google"@, q);
            } else {
                let a = "removed "@;
                let b = a + provider@ + " account `"@;
                lemma_mentions(a, provider@, message.skip((a.len() + provider@.len()) as int));
                assert(message =~= a + provider@ + message.skip((a.len() + provider@.len()) as int));
                lemma_mentions(b, label@, "` (token and consent deleted)"@);
            }
        },
        AccountAction::Rotate { provider, label } => {
            lemma_mentions(
                "rotated "@,
                provider@ + "/"@ + label@,
                " (secret re-minted; any revocation cleared)"@,
            );
        },
        AccountAction::Revoke { provider, label } => {
            lemma_mentions(
                "revoked "@,
                provider@ + "/"@ + label@,
                " (it can no longer resolve until re-minted with `qfs account rotate`)"@,
            );
        },
        _ => {},
    }
}

/// Whether an event is a good answer to what was asked for.
pub open spec fn suits(asked: ActionView, event: EventView) -> bool {
    match asked {
        ActionView::RequireSignedIn => event is SignedIn,
        ActionView::ReadStdin => event is Text && chomped(event->Text_0).len() > 0,
        ActionView::Prompt(_) => event is Text,
        ActionView::GoogleConsent => event is Text,
        ActionView::RefreshTokenKey(_) => event is Key,
        ActionView::List(_) => event is Records,
        ActionView::Finish(..) => true,
        _ => event is Done,
    }
}

/// Whether a command can be carried out at all: the provider has accounts or an application, the
/// account's name is one, and a Google token that is piped in comes with its email.
pub open spec fn is_in_order(action: AccountAction, cloud: bool, terminal: bool) -> bool {
    match action {
        AccountAction::AppAdd { provider } => provider@ == "google"@,
        AccountAction::AppRemove { provider } => provider@ == "google"@,
        AccountAction::Add { provider, label } => if provider@ == "google"@ {
            terminal || label is Some
        } else {
            cloud && name_error(own_key(action)->Some_0.1) is None
        },
        AccountAction::Remove { provider, label } => provider@ == "google"@ || name_error(label@) is None,
        AccountAction::Rotate { label, .. } => name_error(label@) is None,
        AccountAction::Revoke { label, .. } => name_error(label@) is None,
        _ => true,
    }
}

/// A command that is in order succeeds where each of its steps does.
pub proof fn law_commands_succeed_where_their_steps_do(
    action: AccountAction,
    cloud: bool,
    terminal: bool,
    ev: Seq<EventView>,
)
    requires
        is_in_order(action, cloud, terminal),
        ev.len() >= 9,
        forall|i: int|
            0 <= i < ev.len() ==> suits(#[trigger] asked(action, cloud, terminal, ev, i), ev[i]),
    ensures
        step(action, cloud, terminal, ev) is Finish,
        step(action, cloud, terminal, ev)->Finish_1 is Ok,
{
    assert forall|i: int, j: int| 0 <= j < i <= ev.len() implies #[trigger] ev.take(i)[j] == ev[j] by {}
    assert(suits(asked(action, cloud, terminal, ev, 0), ev[0]));
    assert(suits(asked(action, cloud, terminal, ev, 1), ev[1]));
    assert(suits(asked(action, cloud, terminal, ev, 2), ev[2]));
    assert(suits(asked(action, cloud, terminal, ev, 3), ev[3]));
    assert(suits(asked(action, cloud, terminal, ev, 4), ev[4]));
    assert(suits(asked(action, cloud, terminal, ev, 5), ev[5]));
    assert(suits(asked(action, cloud, terminal, ev, 6), ev[6]));
    assert(suits(asked(action, cloud, terminal, ev, 7), ev[7]));
    assert(suits(asked(action, cloud, terminal, ev, 8), ev[8]));
    assert(ev.take(1)[0] == ev[0]);
    assert(ev.take(2)[0] == ev[0] && ev.take(2)[1] == ev[1]);
    assert(ev.take(3)[0] == ev[0] && ev.take(3)[1] == ev[1] && ev.take(3)[2] == ev[2]);
    let t = ev.take(4);
    assert(t[0] == ev[0] && t[1] == ev[1] && t[2] == ev[2] && t[3] == ev[3]);
    let t = ev.take(5);
    assert(t[0] == ev[0] && t[1] == ev[1] && t[2] == ev[2] && t[3] == ev[3] && t[4] == ev[4]);
    let t = ev.take(6);
    assert(t[0] == ev[0] && t[1] == ev[1] && t[2] == ev[2] && t[3] == ev[3] && t[4] == ev[4] && t[5]
        == ev[5]);
    let t = ev.take(7);
    assert(t[0] == ev[0] && t[1] == ev[1] && t[2] == ev[2] && t[3] == ev[3] && t[4] == ev[4] && t[5]
        == ev[5] && t[6] == ev[6]);
    let t = ev.take(8);
    assert(t[0] == ev[0] && t[1] == ev[1] && t[2] == ev[2] && t[3] == ev[3] && t[4] == ev[4] && t[5]
        == ev[5] && t[6] == ev[6] && t[7] == ev[7]);
}

} // verus!
