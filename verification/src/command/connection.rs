//! The commands on connections: adding, listing, removing, choosing the active one.
use crate::command::script::{
    alike_but_texts, event_views, fail, failed, failed_at, failure, key_of, lemma_mentions, mentions,
    prefixed_failure, read_secret,
    require_signed_in, secret_at, subject_at, succeed, success, text_at, Action, ActionView, Event,
    EventView, Listed,
};
use crate::secrets::active::ActiveConnections;
use crate::secrets::key::{name_error, CredentialKey, DriverId};
use crate::text::{
    cat2, cat3, cat4, cat5, chomped, clone_option, decimal, ends, nat_text, opt_view, same, stands_at,
    views,
};
use vstd::prelude::*;

verus! {

/// A command on connections.
#[derive(Debug, Clone, PartialEq, Eq)]
pub enum ConnectionAction {
    /// Stores a credential that comes on standard input.
    Add { driver: String, connection: String },
    /// Lists the stored connections.
    List { driver: Option<String> },
    /// Removes a credential.
    Remove { driver: String, connection: String },
    /// Makes a connection the active one of its driver.
    Use { driver: String, connection: String },
}

/// The scope that a consent is recorded against: the least that the driver needs.
pub open spec fn scope_of(driver: Seq<char>) -> Seq<char> {
    if driver == "gmail"@ {
        "gmail.readonly"@
    } else if driver == "gdrive"@ {
        "drive.readonly"@
    } else if driver == "ga"@ {
        "analytics.readonly"@
    } else if driver == "github"@ {
        "repo"@
    } else if driver == "slack"@ {
        "channels:read"@
    } else if driver == "objstore"@ {
        "storage.read"@
    } else if driver == "cf"@ {
        "account.read"@
    } else {
        ""@
    }
}

/// The scope that a consent is recorded against.
pub fn consent_scope(driver: &str) -> (r: &'static str)
    ensures
        r@ == scope_of(driver@),
{
    if same(driver, "gmail") {
        "gmail.readonly"
    } else if same(driver, "gdrive") {
        "drive.readonly"
    } else if same(driver, "ga") {
        "analytics.readonly"
    } else if same(driver, "github") {
        "repo"
    } else if same(driver, "slack") {
        "channels:read"
    } else if same(driver, "objstore") {
        "storage.read"
    } else if same(driver, "cf") {
        "account.read"
    } else {
        ""
    }
}

/// The active connection of a driver, from what the table holds; `None` where it cannot be read.
#[must_use]
pub fn active_connection(active: Option<&ActiveConnections>, driver: &str) -> (r: Option<String>)
    ensures
        opt_view(r) == match active {
            Some(a) => if a@.contains_key(driver@) {
                Some(a@[driver@])
            } else {
                None
            },
            None => None,
        },
{
    match active {
        Some(a) => match a.get(&DriverId::new(driver)) {
            Some(c) => Some(c.as_str().to_owned()),
            None => None,
        },
        None => None,
    }
}

/// Why a name cannot be used.
pub open spec fn bad_name(connection: Seq<char>) -> Seq<char> {
    "invalid connection name: "@ + name_error(connection)->Some_0.debug()
}

/// The key of a connection.
///
/// # Errors
/// The message for a name that no connection may have.
pub fn cred_key(driver: &str, connection: &str) -> (r: Result<CredentialKey, String>)
    ensures
        match r {
            Ok(k) => name_error(connection@) is None && k@ == (driver@, connection@),
            Err(m) => name_error(connection@) is Some && m@ == bad_name(connection@),
        },
{
    match key_of(driver, connection) {
        Ok(k) => Ok(k),
        Err(e) => Err(cat2("invalid connection name: ", e.debug_text().as_str())),
    }
}

/// What adding asks for when standard input is empty.
pub open spec fn add_example() -> Seq<char> {
    "printf %s \"$TOKEN\" | qfs connection add mail work"@
}

/// The next step of adding. `cloud` says whether the driver is one of the cloud: then the user must
/// have signed in before anything else is touched, and the consent is recorded at the end.
pub open spec fn add_step(
    driver: Seq<char>,
    connection: Seq<char>,
    cloud: bool,
    ev: Seq<EventView>,
) -> ActionView {
    let k: int = if cloud {
        1
    } else {
        0
    };
    let place = driver + "/"@ + connection;
    if cloud && ev.len() == 0 {
        ActionView::RequireSignedIn
    } else if cloud && subject_at(ev, 0, driver) is Err {
        fail(subject_at(ev, 0, driver)->Err_0)
    } else if ev.len() == k {
        ActionView::OpenStore
    } else if failed_at(ev, k) is Some {
        fail(failed_at(ev, k)->Some_0)
    } else if name_error(connection) is Some {
        fail(bad_name(connection))
    } else if ev.len() == k + 1 {
        ActionView::ReadStdin
    } else {
        match secret_at(ev, k + 1, "secret"@, add_example()) {
            Err(m) => fail(m),
            Ok(value) => if ev.len() == k + 2 {
                ActionView::Put((driver, connection), value)
            } else if failed_at(ev, k + 2) is Some {
                fail("storing the credential: "@ + failed_at(ev, k + 2)->Some_0)
            } else if !cloud {
                succeed("stored credential for "@ + place)
            } else if ev.len() == k + 3 {
                ActionView::OpenProject
            } else if failed_at(ev, k + 3) is Some {
                fail(failed_at(ev, k + 3)->Some_0)
            } else if ev.len() == k + 4 {
                ActionView::RecordConsent {
                    driver,
                    connection,
                    subject: subject_at(ev, 0, driver)->Ok_0,
                    scope: scope_of(driver),
                }
            } else if failed_at(ev, k + 4) is Some {
                fail("recording consent: "@ + failed_at(ev, k + 4)->Some_0)
            } else {
                succeed(
                    "stored credential and recorded consent for "@ + place + " (granted by "@
                        + subject_at(ev, 0, driver)->Ok_0 + ")"@,
                )
            },
        }
    }
}

/// One line of a listing.
pub open spec fn listing_line(r: Listed) -> Seq<char> {
    r.driver@ + "/"@ + r.connection@ + "\t"@ + r.created_at@
}

/// The lines of a listing.
pub open spec fn listing_lines(records: Seq<Listed>) -> Seq<Seq<char>> {
    records.map_values(|r: Listed| listing_line(r))
}

/// The next step of listing.
pub open spec fn list_step(driver: Option<Seq<char>>, ev: Seq<EventView>) -> ActionView {
    if ev.len() == 0 {
        ActionView::OpenStore
    } else if failed_at(ev, 0) is Some {
        fail(failed_at(ev, 0)->Some_0)
    } else if ev.len() == 1 {
        ActionView::List(driver)
    } else {
        match ev[1] {
            EventView::Failed(m) => fail("listing connections: "@ + m),
            EventView::Records(records) => if records.len() == 0 {
                succeed("no connections configured"@)
            } else {
                ActionView::Finish(
                    listing_lines(records),
                    Ok(nat_text(records.len()) + " connection(s)"@),
                )
            },
            _ => succeed("no connections configured"@),
        }
    }
}

/// The next step of removing.
pub open spec fn remove_step(
    driver: Seq<char>,
    connection: Seq<char>,
    ev: Seq<EventView>,
) -> ActionView {
    if ev.len() == 0 {
        ActionView::OpenStore
    } else if failed_at(ev, 0) is Some {
        fail(failed_at(ev, 0)->Some_0)
    } else if name_error(connection) is Some {
        fail(bad_name(connection))
    } else if ev.len() == 1 {
        ActionView::Remove((driver, connection))
    } else if failed_at(ev, 1) is Some {
        fail("removing the credential: "@ + failed_at(ev, 1)->Some_0)
    } else {
        succeed("removed "@ + (driver + "/"@ + connection) + " (idempotent)"@)
    }
}

/// The next step of choosing the active connection.
pub open spec fn use_step(
    driver: Seq<char>,
    connection: Seq<char>,
    cloud: bool,
    ev: Seq<EventView>,
) -> ActionView {
    let k: int = if cloud {
        1
    } else {
        0
    };
    if name_error(connection) is Some {
        fail(bad_name(connection))
    } else if cloud && ev.len() == 0 {
        ActionView::RequireSignedIn
    } else if cloud && subject_at(ev, 0, driver) is Err {
        fail(subject_at(ev, 0, driver)->Err_0)
    } else if ev.len() == k {
        ActionView::OpenProject
    } else if failed_at(ev, k) is Some {
        fail(failed_at(ev, k)->Some_0)
    } else if ev.len() == k + 1 {
        ActionView::SetActive { driver, connection }
    } else if failed_at(ev, k + 1) is Some {
        fail("setting the active connection: "@ + failed_at(ev, k + 1)->Some_0)
    } else {
        succeed("active connection for "@ + driver + " set to "@ + connection)
    }
}

/// The next step of a command.
pub open spec fn step(action: ConnectionAction, cloud: bool, ev: Seq<EventView>) -> ActionView {
    match action {
        ConnectionAction::Add { driver, connection } => add_step(driver@, connection@, cloud, ev),
        ConnectionAction::List { driver } => list_step(opt_view(driver), ev),
        ConnectionAction::Remove { driver, connection } => remove_step(driver@, connection@, ev),
        ConnectionAction::Use { driver, connection } => use_step(driver@, connection@, cloud, ev),
    }
}

fn next_of_add(driver: &str, connection: &str, cloud: bool, events: &Vec<Event>) -> (r: Action)
    ensures
        r@ == add_step(driver@, connection@, cloud, event_views(events@)),
{
    let n: usize = events.len();
    let mut subject: String = String::new();
    let mut k: usize = 0;
    if cloud {
        if n == 0 {
            return Action::RequireSignedIn;
        }
        match require_signed_in(events, 0, driver) {
            Ok(s) => subject = s,
            Err(m) => return failure(m),
        }
        k = 1;
    }
    if n == k {
        return Action::OpenStore;
    }
    match failed(events, k) {
        Some(m) => return failure(m.to_owned()),
        None => {},
    }
    let key: CredentialKey = match cred_key(driver, connection) {
        Ok(key) => key,
        Err(m) => return failure(m),
    };
    if n == k + 1 {
        return Action::ReadStdin;
    }
    let value: String = match read_secret(
        events,
        k + 1,
        "secret",
        "printf %s \"$TOKEN\" | qfs connection add mail work",
    ) {
        Ok(v) => v,
        Err(m) => return failure(m),
    };
    if n == k + 2 {
        return Action::Put(key, value);
    }
    match failed(events, k + 2) {
        Some(m) => return prefixed_failure("storing the credential: ", m),
        None => {},
    }
    let place: String = cat3(driver, "/", connection);
    if !cloud {
        return success(cat2("stored credential for ", place.as_str()));
    }
    if n == k + 3 {
        return Action::OpenProject;
    }
    match failed(events, k + 3) {
        Some(m) => return failure(m.to_owned()),
        None => {},
    }
    if n == k + 4 {
        return Action::RecordConsent {
            driver: driver.to_owned(),
            connection: connection.to_owned(),
            subject,
            scope: consent_scope(driver).to_owned(),
        };
    }
    match failed(events, k + 4) {
        Some(m) => return prefixed_failure("recording consent: ", m),
        None => {},
    }
    success(
        cat5(
            "stored credential and recorded consent for ",
            place.as_str(),
            " (granted by ",
            subject.as_str(),
            ")",
        ),
    )
}

fn next_of_list(driver: &Option<String>, events: &Vec<Event>) -> (r: Action)
    ensures
        r@ == list_step(opt_view(*driver), event_views(events@)),
{
    let n: usize = events.len();
    if n == 0 {
        return Action::OpenStore;
    }
    match failed(events, 0) {
        Some(m) => return failure(m.to_owned()),
        None => {},
    }
    if n == 1 {
        return Action::List(clone_option(driver));
    }
    assert(event_views(events@)[1] == events@[1]@);
    match &events[1] {
        Event::Failed(m) => prefixed_failure("listing connections: ", m.as_str()),
        Event::Records(records) => {
            if records.len() == 0 {
                return success("no connections configured".to_owned());
            }
            let mut lines: Vec<String> = Vec::new();
            let mut i: usize = 0;
            while i < records.len()
                invariant
                    i <= records.len(),
                    lines@.len() == i,
                    forall|j: int|
                        0 <= j < i ==> (#[trigger] lines@[j])@ == listing_line(records@[j]),
                decreases records.len() - i,
            {
                let r: &Listed = &records[i];
                lines.push(
                    cat5(
                        r.driver.as_str(),
                        "/",
                        r.connection.as_str(),
                        "\t",
                        r.created_at.as_str(),
                    ),
                );
                i = i + 1;
            }
            assert(views(lines@) =~= listing_lines(records@));
            Action::Finish(
                lines,
                Ok(cat2(decimal(records.len() as u64).as_str(), " connection(s)")),
            )
        },
        _ => success("no connections configured".to_owned()),
    }
}

fn next_of_remove(driver: &str, connection: &str, events: &Vec<Event>) -> (r: Action)
    ensures
        r@ == remove_step(driver@, connection@, event_views(events@)),
{
    let n: usize = events.len();
    if n == 0 {
        return Action::OpenStore;
    }
    match failed(events, 0) {
        Some(m) => return failure(m.to_owned()),
        None => {},
    }
    let key: CredentialKey = match cred_key(driver, connection) {
        Ok(key) => key,
        Err(m) => return failure(m),
    };
    if n == 1 {
        return Action::Remove(key);
    }
    match failed(events, 1) {
        Some(m) => return prefixed_failure("removing the credential: ", m),
        None => {},
    }
    let place: String = cat3(driver, "/", connection);
    success(cat3("removed ", place.as_str(), " (idempotent)"))
}

fn next_of_use(driver: &str, connection: &str, cloud: bool, events: &Vec<Event>) -> (r: Action)
    ensures
        r@ == use_step(driver@, connection@, cloud, event_views(events@)),
{
    let n: usize = events.len();
    match cred_key(driver, connection) {
        Ok(_) => {},
        Err(m) => return failure(m),
    }
    let mut k: usize = 0;
    if cloud {
        if n == 0 {
            return Action::RequireSignedIn;
        }
        match require_signed_in(events, 0, driver) {
            Ok(_) => {},
            Err(m) => return failure(m),
        }
        k = 1;
    }
    if n == k {
        return Action::OpenProject;
    }
    match failed(events, k) {
        Some(m) => return failure(m.to_owned()),
        None => {},
    }
    if n == k + 1 {
        return Action::SetActive { driver: driver.to_owned(), connection: connection.to_owned() };
    }
    match failed(events, k + 1) {
        Some(m) => return prefixed_failure("setting the active connection: ", m),
        None => {},
    }
    success(cat4("active connection for ", driver, " set to ", connection))
}

/// The next step of a command, from what has happened so far. `cloud` says whether its driver is
/// one of the cloud.
pub fn run_inner(action: &ConnectionAction, cloud: bool, events: &Vec<Event>) -> (r: Action)
    ensures
        r@ == step(*action, cloud, event_views(events@)),
{
    match action {
        ConnectionAction::Add { driver, connection } => next_of_add(
            driver.as_str(),
            connection.as_str(),
            cloud,
            events,
        ),
        ConnectionAction::List { driver } => next_of_list(driver, events),
        ConnectionAction::Remove { driver, connection } => next_of_remove(
            driver.as_str(),
            connection.as_str(),
            events,
        ),
        ConnectionAction::Use { driver, connection } => next_of_use(
            driver.as_str(),
            connection.as_str(),
            cloud,
            events,
        ),
    }
}

// ---- laws ------------------------------------------------------------------------------------

/// For a driver of the cloud nothing is asked for, stored or chosen before the user has signed in:
/// every step but the question itself, and giving up, comes behind a signed-in user.
pub proof fn law_cloud_needs_sign_in(
    action: ConnectionAction,
    ev: Seq<EventView>,
)
    requires
        action is Add || action is Use,
    ensures
        ({
            let next = step(action, true, ev);
            next is RequireSignedIn || (next is Finish && next->Finish_1 is Err) || (ev.len() > 0
                && ev[0] is SignedIn)
        }),
{
}

/// What a command says at its end, success or error, tells nothing of the secret that was read.
pub proof fn law_messages_hide_the_secret(
    action: ConnectionAction,
    cloud: bool,
    a: Seq<EventView>,
    b: Seq<EventView>,
)
    requires
        alike_but_texts(a, b),
    ensures
        step(action, cloud, a) is Finish ==> step(action, cloud, b) == step(action, cloud, a),
        step(action, cloud, b) is Finish ==> step(action, cloud, a) == step(action, cloud, b),
{
    if a.len() > 0 {
        assert(a[0] == b[0] || (a[0] is Text && b[0] is Text));
    }
    if a.len() > 1 {
        assert(a[1] == b[1] || (a[1] is Text && b[1] is Text));
    }
    if a.len() > 2 {
        assert(a[2] == b[2] || (a[2] is Text && b[2] is Text));
    }
    if a.len() > 3 {
        assert(a[3] == b[3] || (a[3] is Text && b[3] is Text));
    }
    if a.len() > 4 {
        assert(a[4] == b[4] || (a[4] is Text && b[4] is Text));
    }
    if a.len() > 5 {
        assert(a[5] == b[5] || (a[5] is Text && b[5] is Text));
    }
}

/// Every command comes to an end: after six events nothing more is asked for.
pub proof fn law_commands_end(action: ConnectionAction, cloud: bool, ev: Seq<EventView>)
    requires
        ev.len() >= 6,
    ensures
        step(action, cloud, ev) is Finish,
{
}

/// A step that fails ends the command: the command fails, shows no line, and its message ends with
/// what the step said.
pub proof fn law_a_failing_step_ends_the_command(
    action: ConnectionAction,
    cloud: bool,
    ev: Seq<EventView>,
    m: Seq<char>,
)
    requires
        !(step(action, cloud, ev) is Finish),
    ensures
        ({
            let next = step(action, cloud, ev.push(EventView::Failed(m)));
            next is Finish && next->Finish_0.len() == 0 && next->Finish_1 is Err && ends(
                next->Finish_1->Err_0,
                m,
            )
        }),
{
    let all = ev.push(EventView::Failed(m));
    assert(all[ev.len() as int] == EventView::Failed(m));
    assert(ev.len() > 0 ==> all[0] == ev[0]);
    assert(ev.len() > 1 ==> all[1] == ev[1]);
    assert(ev.len() > 2 ==> all[2] == ev[2]);
    assert(ev.len() > 3 ==> all[3] == ev[3]);
    assert(ev.len() > 4 ==> all[4] == ev[4]);
    let next = step(action, cloud, all);
    assert(next is Finish && next->Finish_1 is Err);
    let message = next->Finish_1->Err_0;
    assert(message.len() >= m.len());
    let before = message.take(message.len() - m.len());
    assert(message =~= before + m);
    lemma_mentions(before, m, Seq::empty());
}

/// The driver and the connection that a command was given; a listing has none.
pub open spec fn place_of(action: ConnectionAction) -> Option<(Seq<char>, Seq<char>)> {
    match action {
        ConnectionAction::Add { driver, connection } => Some((driver@, connection@)),
        ConnectionAction::Remove { driver, connection } => Some((driver@, connection@)),
        ConnectionAction::Use { driver, connection } => Some((driver@, connection@)),
        ConnectionAction::List { .. } => None,
    }
}

/// What a command asked for after its first `i` steps.
pub open spec fn asked(action: ConnectionAction, cloud: bool, ev: Seq<EventView>, i: int) -> ActionView {
    step(action, cloud, ev.take(i))
}

/// Whether step `i` was taken and came out well.
pub open spec fn went_well(ev: Seq<EventView>, i: int) -> bool {
    0 <= i < ev.len() && !(ev[i] is Failed)
}

/// A command acts on the connection that it was given and on no other, and only by the action
/// that it is there for; what `add` stores is standard input without its line end, and it is
/// stored for the user who signed in, with the least scope of the driver.
pub proof fn law_commands_act_on_their_own_connection(
    action: ConnectionAction,
    cloud: bool,
    ev: Seq<EventView>,
)
    ensures
        match step(action, cloud, ev) {
            ActionView::Put(key, value) => {
                &&& action is Add
                &&& place_of(action) == Some(key)
                &&& exists|i: int|
                    #[trigger] went_well(ev, i) && asked(action, cloud, ev, i) is ReadStdin
                        && ev[i] is Text && value == chomped(ev[i]->Text_0)
            },
            ActionView::Remove(key) => action is Remove && place_of(action) == Some(key),
            ActionView::SetActive { driver, connection } => action is Use && place_of(action)
                == Some((driver, connection)),
            ActionView::RecordConsent { driver, connection, subject, scope } => {
                &&& action is Add
                &&& cloud
                &&& place_of(action) == Some((driver, connection))
                &&& ev[0] == EventView::SignedIn(subject)
                &&& scope == scope_of(driver)
            },
            ActionView::List(driver) => action is List && opt_view(action->List_driver) == driver,
            ActionView::OpenStore => !(action is Use),
            ActionView::OpenProject => action is Add || action is Use,
            ActionView::ReadStdin => action is Add,
            ActionView::RequireSignedIn => cloud && ev.len() == 0,
            ActionView::Finish(..) => true,
            _ => false,
        },
{
    reveal_strlit("");
    if step(action, cloud, ev) is Put {
        let k: int = if cloud {
            1
        } else {
            0
        };
        assert(ev.take(k + 1)[0] == ev[0]);
        assert(ev.take(k + 1)[k] == ev[k]);
        if !(ev[k + 1] is Text) {
            assert(text_at(ev, k + 1).len() == 0);
            assert(chomped(text_at(ev, k + 1)).len() == 0);
        }
        assert(went_well(ev, k + 1));
        assert(asked(action, cloud, ev, k + 1) is ReadStdin);
    }
}

/// A command that succeeds has done its work on the connection that it was given, and its message
/// names that connection.
pub proof fn law_success_means_the_work_was_done(
    action: ConnectionAction,
    cloud: bool,
    ev: Seq<EventView>,
)
    requires
        step(action, cloud, ev) is Finish,
        step(action, cloud, ev)->Finish_1 is Ok,
        place_of(action) is Some,
    ensures
        action is Add ==> exists|i: int|
            #[trigger] went_well(ev, i) && asked(action, cloud, ev, i) is Put,
        action is Add && cloud ==> exists|i: int|
            #[trigger] went_well(ev, i) && asked(action, cloud, ev, i) is RecordConsent,
        action is Remove ==> exists|i: int|
            #[trigger] went_well(ev, i) && asked(action, cloud, ev, i) is Remove,
        action is Use ==> exists|i: int|
            #[trigger] went_well(ev, i) && asked(action, cloud, ev, i) is SetActive,
        mentions(step(action, cloud, ev)->Finish_1->Ok_0, place_of(action)->Some_0.0),
        mentions(step(action, cloud, ev)->Finish_1->Ok_0, place_of(action)->Some_0.1),
{
    let message = step(action, cloud, ev)->Finish_1->Ok_0;
    let d = place_of(action)->Some_0.0;
    let c = place_of(action)->Some_0.1;
    let k: int = if cloud {
        1
    } else {
        0
    };
    let (start, between) = match action {
        ConnectionAction::Add { .. } => if cloud {
            ("stored credential and recorded consent for "@, "/"@)
        } else {
            ("stored credential for "@, "/"@)
        },
        ConnectionAction::Remove { .. } => ("removed "@, "/"@),
        _ => ("active connection for "@, " set to "@),
    };
    let rest = message.skip((start.len() + d.len()) as int);
    assert(message =~= start + d + rest);
    lemma_mentions(start, d, rest);
    let before = start + d + between;
    let after = message.skip((before.len() + c.len()) as int);
    assert(message =~= before + c + after);
    lemma_mentions(before, c, after);
    match action {
        ConnectionAction::Add { .. } => {
            assert(ev.take(k + 2)[0] == ev[0]);
            assert(ev.take(k + 2)[k] == ev[k] && ev.take(k + 2)[k + 1] == ev[k + 1]);
            assert(went_well(ev, k + 2));
            assert(asked(action, cloud, ev, k + 2) is Put);
            if cloud {
                let t = ev.take(5);
                assert(t[0] == ev[0] && t[1] == ev[1] && t[2] == ev[2] && t[3] == ev[3] && t[4]
                    == ev[4]);
                assert(went_well(ev, 5));
                assert(asked(action, cloud, ev, 5) is RecordConsent);
            }
        },
        ConnectionAction::Remove { .. } => {
            assert(ev.take(1)[0] == ev[0]);
            assert(went_well(ev, 1));
            assert(asked(action, cloud, ev, 1) is Remove);
        },
        _ => {
            assert(ev.take(k + 1)[0] == ev[0]);
            assert(ev.take(k + 1)[k] == ev[k]);
            assert(went_well(ev, k + 1));
            assert(asked(action, cloud, ev, k + 1) is SetActive);
        },
    }
}

/// A listing has one line for each stored connection, in their order; the line starts with the
/// driver and the connection and ends with the moment it was stored, and the message starts with
/// their number.
pub proof fn law_listings_show_every_connection(
    driver: Option<Seq<char>>,
    ev: Seq<EventView>,
    k: int,
)
    requires
        ev.len() == 2,
        !(ev[0] is Failed),
        ev[1] is Records,
        0 <= k < ev[1]->Records_0.len(),
    ensures
        list_step(driver, ev) is Finish,
        list_step(driver, ev)->Finish_1 is Ok,
        list_step(driver, ev)->Finish_0.len() == ev[1]->Records_0.len(),
        stands_at(
            list_step(driver, ev)->Finish_0[k],
            0,
            ev[1]->Records_0[k].driver@ + "/"@ + ev[1]->Records_0[k].connection@,
        ),
        ends(list_step(driver, ev)->Finish_0[k], ev[1]->Records_0[k].created_at@),
        stands_at(list_step(driver, ev)->Finish_1->Ok_0, 0, nat_text(ev[1]->Records_0.len())),
{
    let r = ev[1]->Records_0[k];
    let line = list_step(driver, ev)->Finish_0[k];
    let place = r.driver@ + "/"@ + r.connection@;
    assert(line == place + "\t"@ + r.created_at@);
    assert(line.subrange(0, place.len() as int) =~= place);
    lemma_mentions(place + "\t"@, r.created_at@, Seq::empty());
    let message = list_step(driver, ev)->Finish_1->Ok_0;
    let count = nat_text(ev[1]->Records_0.len());
    assert(message.subrange(0, count.len() as int) =~= count);
}

/// Whether an event is a good answer to what was asked for.
pub open spec fn suits(asked: ActionView, event: EventView) -> bool {
    match asked {
        ActionView::RequireSignedIn => event is SignedIn,
        ActionView::ReadStdin => event is Text && chomped(event->Text_0).len() > 0,
        ActionView::List(_) => event is Records,
        ActionView::Finish(..) => true,
        _ => event is Done,
    }
}

/// A command on a connection with a proper name succeeds where each of its steps does.
pub proof fn law_commands_succeed_where_their_steps_do(
    action: ConnectionAction,
    cloud: bool,
    ev: Seq<EventView>,
)
    requires
        place_of(action) matches Some(place) ==> name_error(place.1) is None,
        ev.len() >= 6,
        forall|i: int| 0 <= i < ev.len() ==> suits(#[trigger] asked(action, cloud, ev, i), ev[i]),
    ensures
        step(action, cloud, ev) is Finish,
        step(action, cloud, ev)->Finish_1 is Ok,
{
    assert(suits(asked(action, cloud, ev, 0), ev[0]));
    assert(suits(asked(action, cloud, ev, 1), ev[1]));
    assert(suits(asked(action, cloud, ev, 2), ev[2]));
    assert(suits(asked(action, cloud, ev, 3), ev[3]));
    assert(suits(asked(action, cloud, ev, 4), ev[4]));
    assert(suits(asked(action, cloud, ev, 5), ev[5]));
    assert(ev.take(1)[0] == ev[0]);
    assert(ev.take(2)[0] == ev[0] && ev.take(2)[1] == ev[1]);
    assert(ev.take(3)[0] == ev[0] && ev.take(3)[1] == ev[1] && ev.take(3)[2] == ev[2]);
    let t = ev.take(4);
    assert(t[0] == ev[0] && t[1] == ev[1] && t[2] == ev[2] && t[3] == ev[3]);
    let t = ev.take(5);
    assert(t[0] == ev[0] && t[1] == ev[1] && t[2] == ev[2] && t[3] == ev[3] && t[4] == ev[4]);
}

} // verus!
