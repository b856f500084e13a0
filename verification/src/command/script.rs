//! What a script can ask for, and what can come of it.
use crate::secrets::key::{
    is_connection_name, name_error, ConnectionId, ConnectionRecord, CredentialKey, DriverId, Timestamp,
};
use crate::secrets::store::{moment_text, shown_moment};
use crate::text::{cat2, cat3, cat5, chomp, chomped, ends, stands_at};
use vstd::prelude::*;

verus! {

/// Who has signed up on this host.
#[derive(Debug, Clone, PartialEq, Eq)]
pub enum SoleUser {
    /// One user, with this address.
    One(String),
    /// Nobody.
    Nobody,
    /// More than one.
    Many,
}

/// A stored connection, as a listing shows it.
#[derive(Debug, Clone, PartialEq, Eq)]
pub struct Listed {
    /// The driver.
    pub driver: String,
    /// The connection.
    pub connection: String,
    /// The account that the connection's name stands for; only looked at for Google.
    pub email: String,
    /// Whether the driver is one of the cloud.
    pub cloud: bool,
    /// When the credential was stored, written out.
    pub created_at: String,
}

/// What a listing shows for a moment that cannot be written.
pub const UNKNOWN_MOMENT: &'static str = "unknown";

/// When a credential was stored, as a listing shows it.
pub open spec fn shown_text(t: Timestamp) -> Seq<char> {
    match moment_text(t) {
        Some(text) => text,
        None => UNKNOWN_MOMENT@,
    }
}

/// A stored connection as a listing shows it: `email` is the account that its name stands for,
/// `cloud` whether its driver is one of the cloud.
pub fn listed(record: &ConnectionRecord, email: String, cloud: bool) -> (r: Listed)
    ensures
        r.driver@ == record@.0,
        r.connection@ == record@.1,
        r.email == email,
        r.cloud == cloud,
        r.created_at@ == shown_text(record.created_at),
{
    let created_at: String = match shown_moment(&record.created_at) {
        Some(text) => text,
        None => UNKNOWN_MOMENT.to_owned(),
    };
    Listed {
        driver: record.driver.as_str().to_owned(),
        connection: record.connection.as_str().to_owned(),
        email,
        cloud,
        created_at,
    }
}

/// What came of an action.
pub enum Event {
    /// It is done.
    Done,
    /// It failed, with this message.
    Failed(String),
    /// The identity store answered.
    User(SoleUser),
    /// This text came from standard input, the prompt or the browser. Where it should have been
    /// text and was not, it is none.
    Text(Option<String>),
    /// The key was made.
    Key(CredentialKey),
    /// The store listed these.
    Records(Vec<Listed>),
}

/// What to do next.
pub enum Action {
    /// Ask the identity store who has signed up.
    RequireSignedIn,
    /// Open the credential store.
    OpenStore,
    /// Read standard input to its end.
    ReadStdin,
    /// Ask for a secret on the terminal, without echo.
    Prompt(String),
    /// Let the user consent in the browser.
    GoogleConsent,
    /// Make the key of a Google account's refresh token.
    RefreshTokenKey(String),
    /// Store this value under this key.
    Put(CredentialKey, String),
    /// Store this value in the place of the one under this key, and lift its revocation.
    Rotate(CredentialKey, String),
    /// Revoke what is under this key.
    Revoke(CredentialKey),
    /// Remove what is under this key.
    Remove(CredentialKey),
    /// List the stored connections, of one driver where one is given.
    List(Option<String>),
    /// Open the project's database.
    OpenProject,
    /// Record a consent.
    RecordConsent { driver: String, connection: String, subject: String, scope: String },
    /// Delete a consent.
    DeleteConsent { driver: String, connection: String },
    /// Make a connection the active one of its driver.
    SetActive { driver: String, connection: String },
    /// Note a change in the audit log.
    Audit { verb: String, target: String },
    /// Nothing more: these lines, then this message.
    Finish(Vec<String>, Result<String, String>),
}

/// What an [`Event`] holds.
#[verifier::ext_equal]
pub ghost enum EventView {
    Done,
    Failed(Seq<char>),
    SignedIn(Seq<char>),
    Nobody,
    Many,
    Text(Seq<char>),
    NoText,
    Key((Seq<char>, Seq<char>)),
    Records(Seq<Listed>),
}

impl View for Event {
    type V = EventView;

    open spec fn view(&self) -> EventView {
        match self {
            Event::Done => EventView::Done,
            Event::Failed(m) => EventView::Failed(m@),
            Event::User(SoleUser::One(email)) => EventView::SignedIn(email@),
            Event::User(SoleUser::Nobody) => EventView::Nobody,
            Event::User(SoleUser::Many) => EventView::Many,
            Event::Text(Some(t)) => EventView::Text(t@),
            Event::Text(None) => EventView::NoText,
            Event::Key(k) => EventView::Key(k@),
            Event::Records(r) => EventView::Records(r@),
        }
    }
}

/// What the events of a history hold.
pub open spec fn event_views(events: Seq<Event>) -> Seq<EventView> {
    events.map_values(|e: Event| e@)
}

/// What an [`Action`] holds.
#[verifier::ext_equal]
pub ghost enum ActionView {
    RequireSignedIn,
    OpenStore,
    ReadStdin,
    Prompt(Seq<char>),
    GoogleConsent,
    RefreshTokenKey(Seq<char>),
    Put((Seq<char>, Seq<char>), Seq<char>),
    Rotate((Seq<char>, Seq<char>), Seq<char>),
    Revoke((Seq<char>, Seq<char>)),
    Remove((Seq<char>, Seq<char>)),
    List(Option<Seq<char>>),
    OpenProject,
    RecordConsent {
        driver: Seq<char>,
        connection: Seq<char>,
        subject: Seq<char>,
        scope: Seq<char>,
    },
    DeleteConsent { driver: Seq<char>, connection: Seq<char> },
    SetActive { driver: Seq<char>, connection: Seq<char> },
    Audit { verb: Seq<char>, target: Seq<char> },
    Finish(Seq<Seq<char>>, Result<Seq<char>, Seq<char>>),
}

impl View for Action {
    type V = ActionView;

    open spec fn view(&self) -> ActionView {
        match self {
            Action::RequireSignedIn => ActionView::RequireSignedIn,
            Action::OpenStore => ActionView::OpenStore,
            Action::ReadStdin => ActionView::ReadStdin,
            Action::Prompt(p) => ActionView::Prompt(p@),
            Action::GoogleConsent => ActionView::GoogleConsent,
            Action::RefreshTokenKey(e) => ActionView::RefreshTokenKey(e@),
            Action::Put(k, v) => ActionView::Put(k@, v@),
            Action::Rotate(k, v) => ActionView::Rotate(k@, v@),
            Action::Revoke(k) => ActionView::Revoke(k@),
            Action::Remove(k) => ActionView::Remove(k@),
            Action::List(d) => ActionView::List(crate::text::opt_view(*d)),
            Action::OpenProject => ActionView::OpenProject,
            Action::RecordConsent { driver, connection, subject, scope } => ActionView::RecordConsent {
                driver: driver@,
                connection: connection@,
                subject: subject@,
                scope: scope@,
            },
            Action::DeleteConsent { driver, connection } => ActionView::DeleteConsent {
                driver: driver@,
                connection: connection@,
            },
            Action::SetActive { driver, connection } => ActionView::SetActive {
                driver: driver@,
                connection: connection@,
            },
            Action::Audit { verb, target } => ActionView::Audit { verb: verb@, target: target@ },
            Action::Finish(lines, result) => ActionView::Finish(
                crate::text::views(lines@),
                match result {
                    Ok(m) => Ok(m@),
                    Err(m) => Err(m@),
                },
            ),
        }
    }
}

/// To finish with success.
pub open spec fn succeed(message: Seq<char>) -> ActionView {
    ActionView::Finish(Seq::empty(), Ok(message))
}

/// To finish with an error.
pub open spec fn fail(message: Seq<char>) -> ActionView {
    ActionView::Finish(Seq::empty(), Err(message))
}

/// To finish with success.
pub fn success(message: String) -> (r: Action)
    ensures
        r@ == succeed(message@),
{
    let lines: Vec<String> = Vec::new();
    assert(crate::text::views(lines@) =~= Seq::empty());
    Action::Finish(lines, Ok(message))
}

/// To finish with an error.
pub fn failure(message: String) -> (r: Action)
    ensures
        r@ == fail(message@),
{
    let lines: Vec<String> = Vec::new();
    assert(crate::text::views(lines@) =~= Seq::empty());
    Action::Finish(lines, Err(message))
}

/// To finish with an error: what was attempted, and what came of it.
pub fn prefixed_failure(prefix: &str, message: &str) -> (r: Action)
    ensures
        r@ == fail(prefix@ + message@),
{
    failure(cat2(prefix, message))
}

/// Two histories that differ at most in the texts that were read, none of them empty.
pub open spec fn alike_but_texts(a: Seq<EventView>, b: Seq<EventView>) -> bool {
    &&& a.len() == b.len()
    &&& forall|i: int|
        #![trigger a[i]]
        #![trigger b[i]]
        0 <= i < a.len() ==> a[i] == b[i] || (a[i] is Text && b[i] is Text && chomped(
            a[i]->Text_0,
        ).len() > 0 && chomped(b[i]->Text_0).len() > 0)
}

/// The message of the failure that the event `i` is, if it is one.
pub open spec fn failed_at(events: Seq<EventView>, i: int) -> Option<Seq<char>> {
    match events[i] {
        EventView::Failed(m) => Some(m),
        _ => None,
    }
}

/// The message of the failure that the event `i` is, if it is one.
pub fn failed<'a>(events: &'a Vec<Event>, i: usize) -> (r: Option<&'a str>)
    requires
        i < events.len(),
    ensures
        crate::text::opt_str(r) == failed_at(event_views(events@), i as int),
{
    assert(event_views(events@)[i as int] == events@[i as int]@);
    match &events[i] {
        Event::Failed(m) => Some(m.as_str()),
        _ => None,
    }
}

/// The text of the event `i`; empty where it is another event.
pub open spec fn text_at(events: Seq<EventView>, i: int) -> Seq<char> {
    match events[i] {
        EventView::Text(t) => t,
        _ => ""@,
    }
}

/// The text of the event `i`.
pub fn text_of(events: &Vec<Event>, i: usize) -> (r: &str)
    requires
        i < events.len(),
    ensures
        r@ == text_at(event_views(events@), i as int),
{
    assert(event_views(events@)[i as int] == events@[i as int]@);
    match &events[i] {
        Event::Text(Some(t)) => t.as_str(),
        _ => "",
    }
}

// ---- signing in ------------------------------------------------------------------------------

/// The user that the event `i` tells of, or why there is none to go on with.
pub open spec fn subject_at(events: Seq<EventView>, i: int, driver: Seq<char>) -> Result<
    Seq<char>,
    Seq<char>,
> {
    match events[i] {
        EventView::SignedIn(email) => Ok(email),
        EventView::Failed(m) => Err(m),
        EventView::Many => Err(
            "cloud driver '"@ + driver
                + "' requires a signed-in identity, but this host has multiple users and no session yet — sign in as a specific identity before adding a cloud connection"@,
        ),
        _ => Err(
            "cloud driver '"@ + driver
                + "' requires sign-in — run `qfs identity signup <email>` first (cloud connections are unusable for an unauthenticated operator)"@,
        ),
    }
}

/// The signed-in user, from what the identity store answered. A driver of the cloud is of no use to
/// someone who has not signed in, and nobody is picked out of several.
///
/// # Errors
/// The message that says what to do.
pub fn require_signed_in(events: &Vec<Event>, i: usize, driver: &str) -> (r: Result<String, String>)
    requires
        i < events.len(),
    ensures
        match r {
            Ok(s) => subject_at(event_views(events@), i as int, driver@) == Ok::<
                Seq<char>,
                Seq<char>,
            >(s@),
            Err(m) => subject_at(event_views(events@), i as int, driver@) == Err::<
                Seq<char>,
                Seq<char>,
            >(m@),
        },
{
    assert(event_views(events@)[i as int] == events@[i as int]@);
    match &events[i] {
        Event::User(SoleUser::One(email)) => Ok(email.clone()),
        Event::Failed(m) => Err(m.clone()),
        Event::User(SoleUser::Many) => Err(
            cat3(
                "cloud driver '",
                driver,
                "' requires a signed-in identity, but this host has multiple users and no session yet — sign in as a specific identity before adding a cloud connection",
            ),
        ),
        _ => Err(
            cat3(
                "cloud driver '",
                driver,
                "' requires sign-in — run `qfs identity signup <email>` first (cloud connections are unusable for an unauthenticated operator)",
            ),
        ),
    }
}

// ---- opening the store -----------------------------------------------------------------------

/// The passphrase in the environment, or why it cannot be used.
pub open spec fn passphrase(var: Option<Seq<char>>) -> Result<Seq<char>, Seq<char>> {
    match var {
        None => Err(
            "QFS_PASSPHRASE is not set — export it to unlock the encrypted credential store"@,
        ),
        Some(p) => if p.len() == 0 {
            Err("QFS_PASSPHRASE is empty"@)
        } else {
            Ok(p)
        },
    }
}

/// The passphrase in the environment.
///
/// # Errors
/// The message for a passphrase that is not set or empty.
pub fn check_passphrase(var: Option<String>) -> (r: Result<String, String>)
    ensures
        match r {
            Ok(p) => passphrase(crate::text::opt_view(var)) == Ok::<Seq<char>, Seq<char>>(p@),
            Err(m) => passphrase(crate::text::opt_view(var)) == Err::<Seq<char>, Seq<char>>(m@),
        },
{
    match var {
        None => Err(
            "QFS_PASSPHRASE is not set — export it to unlock the encrypted credential store".to_owned(),
        ),
        Some(p) => if p.as_str().is_empty() {
            Err("QFS_PASSPHRASE is empty".to_owned())
        } else {
            Ok(p)
        },
    }
}

// ---- secrets from standard input -------------------------------------------------------------

/// The secret that the event `i` brings: its text without the line ends behind it, or why there is
/// none. `what` says what was asked for, `example` how to pass it.
pub open spec fn secret_at(
    events: Seq<EventView>,
    i: int,
    what: Seq<char>,
    example: Seq<char>,
) -> Result<Seq<char>, Seq<char>> {
    match failed_at(events, i) {
        Some(m) => Err("reading the "@ + what + " from stdin: "@ + m),
        None => {
            let value = chomped(text_at(events, i));
            if value.len() == 0 {
                Err("no "@ + what + " on stdin — pipe it, e.g. `"@ + example + "`"@)
            } else {
                Ok(value)
            }
        },
    }
}

/// The secret that standard input brought.
///
/// # Errors
/// The message for a read that failed and for an empty input.
pub fn read_secret(events: &Vec<Event>, i: usize, what: &str, example: &str) -> (r: Result<
    String,
    String,
>)
    requires
        i < events.len(),
    ensures
        match r {
            Ok(v) => secret_at(event_views(events@), i as int, what@, example@) == Ok::<
                Seq<char>,
                Seq<char>,
            >(v@),
            Err(m) => secret_at(event_views(events@), i as int, what@, example@) == Err::<
                Seq<char>,
                Seq<char>,
            >(m@),
        },
{
    match failed(events, i) {
        Some(m) => {
            let head: String = cat3("reading the ", what, " from stdin: ");
            Err(cat2(head.as_str(), m))
        },
        None => {
            let value: String = chomp(text_of(events, i));
            if value.as_str().is_empty() {
                Err(cat5("no ", what, " on stdin — pipe it, e.g. `", example, "`"))
            } else {
                Ok(value)
            }
        },
    }
}

// ---- keys ------------------------------------------------------------------------------------

/// The key of a connection of a driver, where the name is one that a connection may have.
pub fn key_of(driver: &str, connection: &str) -> (r: Result<
    CredentialKey,
    crate::secrets::key::ConnectionIdError,
>)
    ensures
        match r {
            Ok(k) => name_error(connection@) is None && is_connection_name(connection@) && k@ == (
                driver@,
                connection@,
            ),
            Err(e) => name_error(connection@) == Some(e) && !is_connection_name(connection@),
        },
{
    match ConnectionId::new(connection) {
        Ok(c) => Ok(CredentialKey::new(DriverId::new(driver), c)),
        Err(e) => Err(e),
    }
}

/// Whether `part` stands somewhere in the message.
pub open spec fn mentions(s: Seq<char>, part: Seq<char>) -> bool {
    exists|i: int| stands_at(s, i, part)
}

/// What stands between two texts is mentioned, and what stands last is the end.
pub proof fn lemma_mentions(before: Seq<char>, part: Seq<char>, after: Seq<char>)
    ensures
        mentions(before + part + after, part),
        ends(before + part, part),
        ends(part, part),
{
    let s = before + part + after;
    let i: int = before.len() as int;
    assert(s.subrange(i, i + part.len()) =~= part);
    assert(stands_at(s, i, part));
    let t = before + part;
    assert(t.subrange(t.len() - part.len(), t.len() as int) =~= part);
    assert(part.subrange(0, part.len() as int) =~= part);
}

/// An event is read as what it is: a failure by its message, a text by its text, a user by who it
/// is; and none as another.
pub proof fn law_events_are_read_as_what_they_are(
    ev: Seq<EventView>,
    i: int,
    driver: Seq<char>,
    what: Seq<char>,
    example: Seq<char>,
)
    ensures
        failed_at(ev, i) is Some <==> ev[i] is Failed,
        failed_at(ev, i) matches Some(m) ==> ev[i] == EventView::Failed(m),
        ev[i] is Text ==> text_at(ev, i) == ev[i]->Text_0,
        !(ev[i] is Text) ==> text_at(ev, i).len() == 0,
        subject_at(ev, i, driver) matches Ok(email) ==> ev[i] == EventView::SignedIn(email),
        ev[i] is SignedIn ==> subject_at(ev, i, driver) is Ok,
        ev[i] is Failed ==> subject_at(ev, i, driver) == Err::<Seq<char>, Seq<char>>(
            ev[i]->Failed_0,
        ),
        (ev[i] is Many || ev[i] is Nobody) ==> subject_at(ev, i, driver) is Err && mentions(
            subject_at(ev, i, driver)->Err_0,
            driver,
        ),
        secret_at(ev, i, what, example) matches Ok(value) ==> ev[i] is Text && value == chomped(
            ev[i]->Text_0,
        ) && value.len() > 0,
        ev[i] is Text && chomped(ev[i]->Text_0).len() > 0 ==> secret_at(ev, i, what, example) is Ok,
        secret_at(ev, i, what, example) is Err ==> mentions(
            secret_at(ev, i, what, example)->Err_0,
            what,
        ),
{
    reveal_strlit("");
    if !(ev[i] is Text) {
        assert(chomped(text_at(ev, i)).len() == 0);
    }
    if ev[i] is Many || ev[i] is Nobody {
        let said = subject_at(ev, i, driver)->Err_0;
        let start = "cloud driver '"@;
        let rest = said.skip((start.len() + driver.len()) as int);
        assert(said =~= start + driver + rest);
        lemma_mentions(start, driver, rest);
    }
    if secret_at(ev, i, what, example) is Err {
        let said = secret_at(ev, i, what, example)->Err_0;
        let start = if ev[i] is Failed {
            "reading the "@
        } else {
            "no "@
        };
        let rest = said.skip((start.len() + what.len()) as int);
        assert(said =~= start + what + rest);
        lemma_mentions(start, what, rest);
    }
}

/// A passphrase is the variable's value as it is, where it has one that is not empty.
pub proof fn law_the_passphrase_is_the_variables_value(var: Option<Seq<char>>, p: Seq<char>)
    ensures
        passphrase(var) == Ok::<Seq<char>, Seq<char>>(p) <==> var == Some(p) && p.len() > 0,
{
}

/// A listing shows a record under its own driver and connection, with its moment written out where
/// it can be.
pub proof fn law_listings_show_the_record(
    record: ConnectionRecord,
    email: String,
    cloud: bool,
    shown: Listed,
)
    requires
        call_ensures(listed, (&record, email, cloud), shown),
    ensures
        (shown.driver@, shown.connection@) == (record@.0, record@.1),
        shown.email@ == email@,
        shown.cloud == cloud,
        moment_text(record.created_at) matches Some(text) ==> shown.created_at@ == text,
        moment_text(record.created_at) is None ==> shown.created_at@ == "unknown"@,
{
}

} // verus!
