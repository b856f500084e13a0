//! The interactive shell: lines are evaluated as previews, and only the word `COMMIT` on a line of
//! its own applies what the line just before it previewed. Besides, what the one-shot run reads
//! from: the system's own paths, and every connected cloud mount with the account it is bound to.
use crate::cloud_mounts::{canonical, is_mount_path, CloudMount, MountRemap, MountView};
use crate::command::script::{lemma_mentions, mentions};
use crate::output::{ExecError, PlanPreview, Renderer, RowSet, TableRenderer};
use crate::secrets::key::DriverId;
use crate::text::{
    cat2, cat3, chomp, chomped, decimal, ends, ends_with, folded, nat_text, opt_str, opt_view, same,
    same_ignoring_case, stands_at, trim, trimmed,
};
use vstd::prelude::*;

verus! {

// ---- rendering -------------------------------------------------------------------------------

/// What evaluating a line gave.
#[derive(Debug, PartialEq)]
pub enum Outcome {
    /// Rows.
    Listing(RowSet),
    /// Plans of effects, of which none is applied.
    Preview(Vec<PlanPreview>),
    /// Plans of effects that were applied.
    Committed(Vec<PlanPreview>),
    /// The place that the session moved to.
    Moved(String),
    /// The place that the session is at.
    Cwd(String),
    /// Nothing to show.
    Empty,
}

/// The plans as a table shows them, one after the other.
pub open spec fn plans_text(plans: Seq<PlanPreview>) -> Seq<char>
    decreases plans.len(),
{
    if plans.len() == 0 {
        Seq::empty()
    } else {
        plans_text(plans.drop_last()) + TableRenderer.plan_text(plans.last())
    }
}

/// What the shell shows for an outcome.
pub open spec fn rendered(outcome: Outcome) -> Seq<char> {
    match outcome {
        Outcome::Listing(rows) => TableRenderer.rows_text(rows),
        Outcome::Preview(plans) => "PREVIEW ("@ + nat_text(plans@.len())
            + " effect plan(s), nothing applied):\n"@ + plans_text(plans@)
            + "type COMMIT to apply\n"@,
        Outcome::Committed(plans) => "COMMITTED ("@ + nat_text(plans@.len())
            + " effect plan(s)):\n"@ + plans_text(plans@),
        Outcome::Moved(place) => place@ + "\n"@,
        Outcome::Cwd(place) => place@ + "\n"@,
        Outcome::Empty => Seq::empty(),
    }
}

fn render_plans(plans: &Vec<PlanPreview>) -> (r: String)
    ensures
        r@ == plans_text(plans@),
{
    let mut r: String = String::new();
    let mut i: usize = 0;
    assert(r@ =~= plans_text(plans@.take(0)));
    while i < plans.len()
        invariant
            i <= plans.len(),
            r@ == plans_text(plans@.take(i as int)),
        decreases plans.len() - i,
    {
        assert(plans@.take(i + 1).drop_last() =~= plans@.take(i as int));
        r.append(TableRenderer.plan(&plans[i]).as_str());
        i = i + 1;
    }
    assert(plans@.take(i as int) =~= plans@);
    r
}

/// What the shell shows for an outcome.
#[must_use]
pub fn render(outcome: &Outcome) -> (r: String)
    ensures
        r@ == rendered(*outcome),
{
    match outcome {
        Outcome::Listing(rows) => TableRenderer.rows(rows),
        Outcome::Preview(plans) => {
            let mut r: String = cat3(
                "PREVIEW (",
                decimal(plans.len() as u64).as_str(),
                " effect plan(s), nothing applied):\n",
            );
            r.append(render_plans(plans).as_str());
            r.append("type COMMIT to apply\n");
            r
        },
        Outcome::Committed(plans) => {
            let mut r: String = cat3(
                "COMMITTED (",
                decimal(plans.len() as u64).as_str(),
                " effect plan(s)):\n",
            );
            r.append(render_plans(plans).as_str());
            r
        },
        Outcome::Moved(place) => cat2(place.as_str(), "\n"),
        Outcome::Cwd(place) => cat2(place.as_str(), "\n"),
        Outcome::Empty => {
            let r: String = String::new();
            assert(r@ =~= Seq::empty());
            r
        },
    }
}

// ---- the dialogue ----------------------------------------------------------------------------

/// What follows a line that was read.
#[derive(Debug, PartialEq, Eq)]
pub enum Step {
    /// Show this.
    Say(String),
    /// Evaluate this line; its effects are applied where `commit` says so, and previewed
    /// otherwise.
    Evaluate {
        /// The line.
        line: String,
        /// Whether effects are applied.
        commit: bool,
    },
}

/// What a [`Step`] holds.
#[verifier::ext_equal]
pub ghost enum StepView {
    Say(Seq<char>),
    Evaluate { line: Seq<char>, commit: bool },
}

impl View for Step {
    type V = StepView;

    open spec fn view(&self) -> StepView {
        match self {
            Step::Say(text) => StepView::Say(text@),
            Step::Evaluate { line, commit } => StepView::Evaluate { line: line@, commit: *commit },
        }
    }
}

/// What is done with a line that was read.
#[derive(Debug, PartialEq, Eq)]
pub struct Turn {
    /// What goes into the history of lines: a line that is not blank.
    pub remembered: Option<String>,
    /// What follows.
    pub step: Step,
}

/// Whether a line is the bare word `COMMIT`, in any case and with any white space round it.
pub open spec fn is_commit(line: Seq<char>) -> bool {
    folded(trimmed(line)) == folded("COMMIT"@)
}

/// What follows a line, without the end of its line, where `pending` is what was just previewed.
pub open spec fn step_of(pending: Option<Seq<char>>, line: Seq<char>) -> StepView {
    if is_commit(line) {
        match pending {
            Some(previewed) => StepView::Evaluate { line: previewed, commit: true },
            None => StepView::Say("nothing to commit\n"@),
        }
    } else {
        StepView::Evaluate { line, commit: false }
    }
}

/// What an evaluation leaves to be committed: the line itself where it was previewed, otherwise
/// nothing.
pub open spec fn pending_of(line: Seq<char>, commit: bool, result: Result<Outcome, ExecError>) -> Option<
    Seq<char>,
> {
    if !commit && (result matches Ok(outcome) && outcome is Preview) {
        Some(line)
    } else {
        None
    }
}

/// The dialogue: it knows which line, if any, the next `COMMIT` applies.
#[derive(Debug)]
pub struct Repl {
    pending: Option<String>,
}

impl View for Repl {
    type V = Option<Seq<char>>;

    closed spec fn view(&self) -> Option<Seq<char>> {
        opt_view(self.pending)
    }
}

impl Repl {
    /// A dialogue at its start: there is nothing to commit.
    #[must_use]
    pub fn new() -> (r: Repl)
        ensures
            r@ == None::<Seq<char>>,
    {
        Repl { pending: None }
    }

    /// Takes a line as it was read, with the end of the line or without. A `COMMIT` takes the
    /// previewed line away; whatever else was typed stays to be evaluated.
    pub fn read(&mut self, raw: &str) -> (r: Turn)
        ensures
            r.step@ == step_of(old(self)@, chomped(raw@)),
            opt_view(r.remembered) == if trimmed(chomped(raw@)).len() > 0 {
                Some(chomped(raw@))
            } else {
                None
            },
            final(self)@ == if is_commit(chomped(raw@)) {
                None
            } else {
                old(self)@
            },
    {
        let line: String = chomp(raw);
        let word: String = trim(line.as_str());
        let remembered: Option<String> = if word.as_str().is_empty() {
            None
        } else {
            Some(line.clone())
        };
        let step: Step = if same_ignoring_case(word.as_str(), "COMMIT") {
            let mut taken: Option<String> = None;
            std::mem::swap(&mut taken, &mut self.pending);
            match taken {
                Some(previewed) => Step::Evaluate { line: previewed, commit: true },
                None => Step::Say("nothing to commit\n".to_string()),
            }
        } else {
            Step::Evaluate { line, commit: false }
        };
        Turn { remembered, step }
    }

    /// Takes what an evaluation gave, and says what to show for it: the outcome, or the error as a
    /// table shows it. After a preview its line can be committed; after anything else nothing can.
    pub fn answer(
        &mut self,
        line: &str,
        commit: bool,
        result: &Result<Outcome, ExecError>,
    ) -> (r: String)
        ensures
            r@ == match *result {
                Ok(outcome) => rendered(outcome),
                Err(e) => TableRenderer.error_text(e),
            },
            final(self)@ == pending_of(line@, commit, *result),
    {
        match result {
            Ok(outcome) => {
                self.pending = match outcome {
                    Outcome::Preview(_) => if commit {
                        None
                    } else {
                        Some(line.to_string())
                    },
                    _ => None,
                };
                render(outcome)
            },
            Err(e) => {
                self.pending = None;
                TableRenderer.error(e)
            },
        }
    }
}

// ---- places ----------------------------------------------------------------------------------

/// The mount of the local file system.
pub const LOCAL_MOUNT: &'static str = "/local";

/// The path that a local scan reads: the one that was asked for, or the mount's root where none
/// was.
pub fn local_scan_path(path: &str) -> (r: String)
    ensures
        r@ == if path@.len() == 0 {
            LOCAL_MOUNT@
        } else {
            path@
        },
{
    if path.is_empty() {
        LOCAL_MOUNT.to_string()
    } else {
        path.to_string()
    }
}

/// A directory with a relative path below it.
pub open spec fn path_join(base: Seq<char>, part: Seq<char>) -> Seq<char> {
    if base.len() == 0 || ends(base, "/"@) {
        base + part
    } else {
        base + "/"@ + part
    }
}

fn join_path(base: &str, part: &str) -> (r: String)
    ensures
        r@ == path_join(base@, part@),
{
    if base.is_empty() || ends_with(base, "/") {
        cat2(base, part)
    } else {
        cat3(base, "/", part)
    }
}

/// Where the history of lines is kept: below the configuration directory, or else below the
/// user's own `.config`; nowhere where neither is known.
pub fn history_path(config_home: Option<&str>, home: Option<&str>) -> (r: Option<String>)
    ensures
        opt_view(r) == match opt_str(config_home) {
            Some(dir) => Some(path_join(path_join(dir, "qfs"@), "history"@)),
            None => match opt_str(home) {
                Some(dir) => Some(
                    path_join(path_join(path_join(dir, ".config"@), "qfs"@), "history"@),
                ),
                None => None,
            },
        },
{
    let base: String = match config_home {
        Some(dir) => dir.to_string(),
        None => match home {
            Some(dir) => join_path(dir, ".config"),
            None => {
                return None;
            },
        },
    };
    Some(join_path(join_path(base.as_str(), "qfs").as_str(), "history"))
}

// ---- facets ----------------------------------------------------------------------------------

/// The live read that a cloud mount wants, with the connection that it is bound to.
#[derive(Debug, Clone, PartialEq, Eq)]
pub enum FacetPlan {
    /// Mail of Google, by the mount's account.
    Gmail,
    /// Files of Google, by the mount's account.
    Gdrive,
    /// Analytics of Google, by the mount's account.
    Analytics,
    /// GitHub, by this connection.
    Github(String),
    /// Slack, by this connection.
    Slack(String),
    /// An S3 bucket, by this connection.
    S3(String),
    /// An R2 bucket, by this connection.
    R2(String),
}

/// What a [`FacetPlan`] holds.
#[verifier::ext_equal]
pub ghost enum FacetView {
    Gmail,
    Gdrive,
    Analytics,
    Github(Seq<char>),
    Slack(Seq<char>),
    S3(Seq<char>),
    R2(Seq<char>),
}

impl View for FacetPlan {
    type V = FacetView;

    open spec fn view(&self) -> FacetView {
        match self {
            FacetPlan::Gmail => FacetView::Gmail,
            FacetPlan::Gdrive => FacetView::Gdrive,
            FacetPlan::Analytics => FacetView::Analytics,
            FacetPlan::Github(c) => FacetView::Github(c@),
            FacetPlan::Slack(c) => FacetView::Slack(c@),
            FacetPlan::S3(c) => FacetView::S3(c@),
            FacetPlan::R2(c) => FacetView::R2(c@),
        }
    }
}

/// The live read that a mount wants, by the mount's account; a mount without an account, and a
/// kind without live reads, have none.
pub open spec fn facet_for(mount: MountView) -> Option<FacetView> {
    match mount.account {
        None => None,
        Some(account) => if mount.kind == "gmail"@ {
            Some(FacetView::Gmail)
        } else if mount.kind == "gdrive"@ {
            Some(FacetView::Gdrive)
        } else if mount.kind == "ga"@ || mount.kind == "google-analytics"@ {
            Some(FacetView::Analytics)
        } else if mount.kind == "github"@ {
            Some(FacetView::Github(account))
        } else if mount.kind == "slack"@ {
            Some(FacetView::Slack(account))
        } else if mount.kind == "s3"@ {
            Some(FacetView::S3(account))
        } else if mount.kind == "r2"@ {
            Some(FacetView::R2(account))
        } else {
            None
        },
    }
}

/// The live read that a mount wants, by the mount's own account; `None` for a mount without an
/// account and for a kind without live reads.
pub fn cloud_read_facet(mount: &CloudMount) -> (r: Option<FacetPlan>)
    ensures
        match r {
            Some(f) => facet_for(mount@) == Some(f@),
            None => facet_for(mount@) is None,
        },
{
    let connection: String = match &mount.account {
        Some(a) => a.clone(),
        None => return None,
    };
    let kind: &str = mount.kind.as_str();
    if same(kind, "gmail") {
        Some(FacetPlan::Gmail)
    } else if same(kind, "gdrive") {
        Some(FacetPlan::Gdrive)
    } else if same(kind, "ga") || same(kind, "google-analytics") {
        Some(FacetPlan::Analytics)
    } else if same(kind, "github") {
        Some(FacetPlan::Github(connection))
    } else if same(kind, "slack") {
        Some(FacetPlan::Slack(connection))
    } else if same(kind, "s3") {
        Some(FacetPlan::S3(connection))
    } else if same(kind, "r2") {
        Some(FacetPlan::R2(connection))
    } else {
        None
    }
}

/// What a mount of this kind says when it has no usable account: the commands that give it one.
pub open spec fn hint(kind: Seq<char>) -> Seq<char> {
    if kind == "gmail"@ {
        "this mail mount has no usable Google account — run `qfs app add google`, `qfs account add google <email>`, then `qfs connect <path> gmail <email>`"@
    } else if kind == "gdrive"@ {
        "this Drive mount has no usable Google account — run `qfs app add google`, `qfs account add google <email>`, then `qfs connect <path> gdrive <email>`"@
    } else if kind == "ga"@ || kind == "google-analytics"@ {
        "this Analytics mount has no usable Google account — run `qfs app add google`, `qfs account add google <email>`, then `qfs connect <path> ga <email>`"@
    } else if kind == "github"@ {
        "this GitHub mount has no usable account — run `qfs account add github <label>`, then `qfs connect <path> github <label>`"@
    } else if kind == "slack"@ {
        "this Slack mount has no usable workspace token — run `qfs account add slack <label>`, then `qfs connect <path> slack <label>`"@
    } else if kind == "s3"@ {
        "this S3 mount has no usable credentials — run `qfs account add s3 <label>`, then `qfs connect <path> s3 <label>` (S3 reads need a credentialed bucket)"@
    } else if kind == "r2"@ {
        "this R2 mount has no usable credentials — run `qfs account add r2 <label>`, then `qfs connect <path> r2 <label>`"@
    } else {
        "this mount's driver has no live read facet yet — see `qfs describe` for its surface"@
    }
}

/// What a mount of this kind says when it has no usable account.
#[must_use]
pub fn connect_hint(kind: &str) -> (r: &'static str)
    ensures
        r@ == hint(kind@),
{
    if same(kind, "gmail") {
        "this mail mount has no usable Google account — run `qfs app add google`, `qfs account add google <email>`, then `qfs connect <path> gmail <email>`"
    } else if same(kind, "gdrive") {
        "this Drive mount has no usable Google account — run `qfs app add google`, `qfs account add google <email>`, then `qfs connect <path> gdrive <email>`"
    } else if same(kind, "ga") || same(kind, "google-analytics") {
        "this Analytics mount has no usable Google account — run `qfs app add google`, `qfs account add google <email>`, then `qfs connect <path> ga <email>`"
    } else if same(kind, "github") {
        "this GitHub mount has no usable account — run `qfs account add github <label>`, then `qfs connect <path> github <label>`"
    } else if same(kind, "slack") {
        "this Slack mount has no usable workspace token — run `qfs account add slack <label>`, then `qfs connect <path> slack <label>`"
    } else if same(kind, "s3") {
        "this S3 mount has no usable credentials — run `qfs account add s3 <label>`, then `qfs connect <path> s3 <label>` (S3 reads need a credentialed bucket)"
    } else if same(kind, "r2") {
        "this R2 mount has no usable credentials — run `qfs account add r2 <label>`, then `qfs connect <path> r2 <label>`"
    } else {
        "this mount's driver has no live read facet yet — see `qfs describe` for its surface"
    }
}

/// What of the world decides what a one-shot run reads from.
#[derive(Debug, Clone, PartialEq, Eq)]
pub struct Surroundings {
    /// Whether the system database opens.
    pub system: bool,
    /// The driver of the recorded sessions, where there are any.
    pub sessions: Option<String>,
    /// Whether a SQL connection is configured.
    pub sql: bool,
    /// Whether a git repository is configured.
    pub git: bool,
}

/// What a one-shot run can plan over, besides the defined paths: the local files and the system's
/// own tables always, databases and repositories where they are configured.
pub open spec fn planned_mounts(world: Surroundings) -> Seq<Seq<char>> {
    seq!["local"@] + (if world.sql {
        seq!["sql"@]
    } else {
        Seq::empty()
    }) + (if world.git {
        seq!["git"@]
    } else {
        Seq::empty()
    }) + seq!["sys"@]
}

fn engine_mounts(world: &Surroundings) -> (r: Vec<DriverId>)
    ensures
        r@.map_values(|d: DriverId| d@) == planned_mounts(*world),
{
    let mut r: Vec<DriverId> = Vec::new();
    r.push(DriverId::new("local"));
    if world.sql {
        r.push(DriverId::new("sql"));
    }
    if world.git {
        r.push(DriverId::new("git"));
    }
    r.push(DriverId::new("sys"));
    assert(r@.map_values(|d: DriverId| d@) =~= planned_mounts(*world));
    r
}

/// What reads are registered for.
#[derive(Debug)]
pub enum Facet {
    /// The reads of the system's own driver.
    System,
    /// The live reads of the cloud mount at this index, with the paths mapped to its driver's.
    Live {
        /// The index of the mount.
        mount: usize,
        /// The arithmetic of its paths.
        remap: MountRemap,
    },
    /// An error with this hint, for a cloud mount that cannot be read.
    Hint(&'static str),
}

/// One registration: the reads of a driver under its name.
#[derive(Debug)]
pub struct Registration {
    /// The name.
    pub id: DriverId,
    /// The reads.
    pub facet: Facet,
}

/// What a [`Facet`] holds.
#[verifier::ext_equal]
pub ghost enum RegisteredView {
    System,
    Live { mount: int, outer: Seq<char>, inner: Seq<char> },
    Hint(Seq<char>),
}

impl View for Facet {
    type V = RegisteredView;

    open spec fn view(&self) -> RegisteredView {
        match self {
            Facet::System => RegisteredView::System,
            Facet::Live { mount, remap } => RegisteredView::Live {
                mount: *mount as int,
                outer: remap.outer(),
                inner: remap.inner(),
            },
            Facet::Hint(text) => RegisteredView::Hint(text@),
        }
    }
}

/// What the registrations of a list hold.
pub open spec fn registration_views(list: Seq<Registration>) -> Seq<(Seq<char>, RegisteredView)> {
    list.map_values(|r: Registration| (r.id@, r.facet@))
}

/// The reads of the system's own drivers.
pub open spec fn system_reads(world: Surroundings) -> Seq<(Seq<char>, RegisteredView)> {
    seq![("local"@, RegisteredView::System)] + (if world.system {
        seq![("sys"@, RegisteredView::System)]
    } else {
        Seq::empty()
    }) + (match opt_view(world.sessions) {
        Some(id) => seq![(id, RegisteredView::System)],
        None => Seq::empty(),
    }) + (if world.sql {
        seq![("sql"@, RegisteredView::System)]
    } else {
        Seq::empty()
    }) + (if world.git {
        seq![("git"@, RegisteredView::System)]
    } else {
        Seq::empty()
    })
}

/// The reads of the mount at index `i`, under its path without the `/` in front: live where it
/// wants live reads and the client for them is bound, else the hint of its kind. `None` for what
/// cannot be mounted.
pub open spec fn mount_read(mount: MountView, i: int, bound: bool) -> Option<
    (Seq<char>, RegisteredView),
> {
    if canonical(mount.kind) is Some && is_mount_path(mount.path) {
        let id = mount.path.subrange(1, mount.path.len() as int);
        if bound && facet_for(mount) is Some {
            Some(
                (
                    id,
                    RegisteredView::Live {
                        mount: i,
                        outer: mount.path,
                        inner: canonical(mount.kind)->0,
                    },
                ),
            )
        } else {
            Some((id, RegisteredView::Hint(hint(mount.kind))))
        }
    } else {
        None
    }
}

/// The reads of the mounts, in order.
pub open spec fn mount_reads(mounts: Seq<CloudMount>, bound: Seq<bool>) -> Seq<
    (Seq<char>, RegisteredView),
>
    decreases mounts.len(),
{
    if mounts.len() == 0 {
        Seq::empty()
    } else {
        let n = mounts.len() - 1;
        let rest = mount_reads(mounts.drop_last(), bound);
        match mount_read(mounts[n]@, n, bound[n]) {
            Some(r) => rest.push(r),
            None => rest,
        }
    }
}

fn registered_reads(world: &Surroundings, mounts: &Vec<CloudMount>, bound: &Vec<bool>) -> (r: Vec<
    Registration,
>)
    requires
        bound@.len() == mounts@.len(),
    ensures
        registration_views(r@) == system_reads(*world) + mount_reads(mounts@, bound@),
{
    let mut r: Vec<Registration> = Vec::new();
    r.push(Registration { id: DriverId::new("local"), facet: Facet::System });
    if world.system {
        r.push(Registration { id: DriverId::new("sys"), facet: Facet::System });
    }
    if let Some(id) = &world.sessions {
        r.push(Registration { id: DriverId::new(id.as_str()), facet: Facet::System });
    }
    if world.sql {
        r.push(Registration { id: DriverId::new("sql"), facet: Facet::System });
    }
    if world.git {
        r.push(Registration { id: DriverId::new("git"), facet: Facet::System });
    }
    let ghost system = system_reads(*world);
    assert(registration_views(r@) =~= system);
    let mut i: usize = 0;
    assert(registration_views(r@) =~= system + mount_reads(mounts@.take(0), bound@));
    while i < mounts.len()
        invariant
            i <= mounts.len(),
            bound.len() == mounts.len(),
            registration_views(r@) == system + mount_reads(mounts@.take(i as int), bound@),
        decreases mounts.len() - i,
    {
        let ghost had = registration_views(r@);
        let ghost so_far = mount_reads(mounts@.take(i as int), bound@);
        assert(mounts@.take(i + 1).drop_last() =~= mounts@.take(i as int));
        if let Some(remap) = mounts[i].remap() {
            let id: DriverId = remap.outer_id();
            let facet: Facet = if bound[i] && cloud_read_facet(&mounts[i]).is_some() {
                Facet::Live { mount: i, remap }
            } else {
                Facet::Hint(connect_hint(mounts[i].kind.as_str()))
            };
            let ghost pair = (id@, facet@);
            r.push(Registration { id, facet });
            assert(registration_views(r@) =~= had.push(pair));
            assert(system + so_far.push(pair) =~= (system + so_far).push(pair));
        }
        i = i + 1;
    }
    assert(mounts@.take(i as int) =~= mounts@);
    r
}

/// What a one-shot run plans over, besides the defined paths, and what it reads from: the system's
/// own drivers, and then every cloud mount under its own name, `bound[i]` saying whether the client
/// for the live reads of the mount at `i` could be bound to the mount's account. A mount that has no
/// account, or could not be bound, answers every read with the hint of its kind.
pub fn run_engine_and_reads(
    world: &Surroundings,
    mounts: &Vec<CloudMount>,
    bound: &Vec<bool>,
) -> (r: (Vec<DriverId>, Vec<Registration>))
    requires
        bound@.len() == mounts@.len(),
    ensures
        r.0@.map_values(|d: DriverId| d@) == planned_mounts(*world),
        registration_views(r.1@) == system_reads(*world) + mount_reads(mounts@, bound@),
{
    (engine_mounts(world), registered_reads(world, mounts, bound))
}

// ---- laws ------------------------------------------------------------------------------------

/// One turn of a dialogue: the line that was read, and what evaluating it gave, where it was
/// evaluated.
pub ghost struct TurnView {
    pub line: Seq<char>,
    pub result: Result<Outcome, ExecError>,
}

/// What a dialogue leaves to be committed.
pub open spec fn pending_after(turns: Seq<TurnView>) -> Option<Seq<char>>
    decreases turns.len(),
{
    if turns.len() == 0 {
        None
    } else {
        let turn = turns.last();
        match step_of(pending_after(turns.drop_last()), turn.line) {
            StepView::Say(_) => None,
            StepView::Evaluate { line, commit } => pending_of(line, commit, turn.result),
        }
    }
}

/// Whatever has been typed, effects are applied only by a bare `COMMIT`, and then only those of
/// the very line before it, and only where that line was previewed.
pub proof fn law_commit_applies_the_line_just_previewed(
    turns: Seq<TurnView>,
    line: Seq<char>,
    applied: Seq<char>,
)
    ensures
        step_of(pending_after(turns), line) == (StepView::Evaluate { line: applied, commit: true })
            <==> {
            &&& is_commit(line)
            &&& turns.len() > 0
            &&& turns.last().line == applied
            &&& !is_commit(applied)
            &&& turns.last().result matches Ok(outcome) && outcome is Preview
        },
{
}

/// A line that is not a bare `COMMIT` is evaluated as it stands, and its effects are not applied.
pub proof fn law_lines_are_previewed(turns: Seq<TurnView>, line: Seq<char>)
    requires
        !is_commit(line),
    ensures
        step_of(pending_after(turns), line) == (StepView::Evaluate { line, commit: false }),
{
}

/// A preview is applied at most once: the `COMMIT` after a `COMMIT` finds nothing.
pub proof fn law_commit_happens_once(turns: Seq<TurnView>, line: Seq<char>)
    requires
        turns.len() > 0,
        is_commit(turns.last().line),
        is_commit(line),
    ensures
        step_of(pending_after(turns), line) == StepView::Say("nothing to commit\n"@),
{
}

proof fn lemma_mount_reads(mounts: Seq<CloudMount>, bound: Seq<bool>, i: int)
    requires
        0 <= i < mounts.len(),
        mount_read(mounts[i]@, i, bound[i]) is Some,
    ensures
        mount_reads(mounts, bound).contains(mount_read(mounts[i]@, i, bound[i])->0),
    decreases mounts.len(),
{
    let read = mount_read(mounts[i]@, i, bound[i])->0;
    let all = mount_reads(mounts, bound);
    let rest = mounts.drop_last();
    if i < rest.len() {
        lemma_mount_reads(rest, bound, i);
        let k = choose|k: int|
            0 <= k < mount_reads(rest, bound).len() && mount_reads(rest, bound)[k] == read;
        assert(all[k] == read);
    } else {
        assert(all.last() == read);
        assert(all[all.len() - 1] == read);
    }
}

/// Every cloud mount that can be mounted is registered under its own name: with its live reads
/// where it has some and their client is bound to its account, and with the hint of its kind where
/// not. So a read of it never goes unanswered.
pub proof fn law_every_mount_answers(mounts: Seq<CloudMount>, bound: Seq<bool>, i: int)
    requires
        0 <= i < mounts.len(),
        canonical(mounts[i].kind@) is Some,
        is_mount_path(mounts[i].path@),
    ensures
        mount_reads(mounts, bound).contains(
            (
                mounts[i].path@.subrange(1, mounts[i].path@.len() as int),
                if bound[i] && facet_for(mounts[i]@) is Some {
                    RegisteredView::Live {
                        mount: i,
                        outer: mounts[i].path@,
                        inner: canonical(mounts[i].kind@)->0,
                    }
                } else {
                    RegisteredView::Hint(hint(mounts[i].kind@))
                },
            ),
        ),
{
    lemma_mount_reads(mounts, bound, i);
}

/// A mount without an account is never read live, whatever else could be bound.
pub proof fn law_no_account_means_no_live_reads(mount: MountView, i: int, bound: bool)
    requires
        mount.account is None,
    ensures
        mount_read(mount, i, bound) matches Some(r) ==> r.1 == RegisteredView::Hint(
            hint(mount.kind),
        ),
{
}

/// Nothing of the cloud is registered that is not connected: each registration of a mount is that
/// of one of the mounts.
pub proof fn law_only_connected_mounts_answer(mounts: Seq<CloudMount>, bound: Seq<bool>, k: int)
    requires
        0 <= k < mount_reads(mounts, bound).len(),
    ensures
        exists|i: int|
            #![trigger mounts[i]]
            0 <= i < mounts.len() && mount_read(mounts[i]@, i, bound[i]) == Some(
                mount_reads(mounts, bound)[k],
            ),
    decreases mounts.len(),
{
    let n = mounts.len() - 1;
    let rest = mounts.drop_last();
    let before = mount_reads(rest, bound);
    if k < before.len() {
        law_only_connected_mounts_answer(rest, bound, k);
        let i = choose|i: int|
            #![trigger rest[i]]
            0 <= i < rest.len() && mount_read(rest[i]@, i, bound[i]) == Some(before[k]);
        assert(mounts[i] == rest[i]);
    } else {
        assert(mount_read(mounts[n]@, n, bound[n]) == Some(mount_reads(mounts, bound)[k]));
    }
}

/// The plans of two runs, one after the other, are shown as the first and then the second; one plan
/// is shown as the table shows it. So every plan is shown, once and in its place.
pub proof fn law_plans_are_shown_in_order(a: Seq<PlanPreview>, b: Seq<PlanPreview>, p: PlanPreview)
    ensures
        plans_text(a + b) == plans_text(a) + plans_text(b),
        plans_text(seq![p]) == TableRenderer.plan_text(p),
    decreases b.len(),
{
    assert(seq![p].drop_last() =~= Seq::<PlanPreview>::empty());
    assert(plans_text(seq![p].drop_last()) =~= Seq::<char>::empty());
    assert(plans_text(seq![p]) =~= TableRenderer.plan_text(p));
    if b.len() == 0 {
        assert(a + b =~= a);
        assert(plans_text(a) + plans_text(b) =~= plans_text(a));
    } else {
        law_plans_are_shown_in_order(a, b.drop_last(), p);
        assert((a + b).drop_last() =~= a + b.drop_last());
        assert((a + b).last() == b.last());
        assert(plans_text(a + b) =~= plans_text(a) + plans_text(b));
    }
}

/// A preview and a commit of the same plans show the same plans, under a headline with their
/// number that says which of the two it was; only the preview says that nothing was applied, and
/// how to apply it. A place is shown on a line of its own, and nothing where there is nothing.
pub proof fn law_outcomes_are_shown_as_what_they_are(plans: Vec<PlanPreview>, place: String)
    ensures
        ({
            let count = nat_text(plans@.len());
            let preview = rendered(Outcome::Preview(plans));
            let done = rendered(Outcome::Committed(plans));
            &&& mentions(preview, plans_text(plans@))
            &&& ends(done, plans_text(plans@))
            &&& stands_at(preview, 0, "PREVIEW ("@ + count)
            &&& stands_at(done, 0, "COMMITTED ("@ + count)
            &&& mentions(preview, "nothing applied"@)
            &&& ends(preview, "type COMMIT to apply\n"@)
        }),
        rendered(Outcome::Moved(place)) == place@ + "\n"@,
        rendered(Outcome::Cwd(place)) == rendered(Outcome::Moved(place)),
        rendered(Outcome::Empty).len() == 0,
{
    let count = nat_text(plans@.len());
    let all = plans_text(plans@);
    let preview = rendered(Outcome::Preview(plans));
    let done = rendered(Outcome::Committed(plans));
    let head = "PREVIEW ("@ + count;
    let note = " effect plan(s), nothing applied):\n"@;
    let last = "type COMMIT to apply\n"@;
    lemma_mentions(head + note, all, last);
    lemma_mentions(head + note + all, last, Seq::empty());
    assert(preview.subrange(0, head.len() as int) =~= head);
    reveal_strlit(" effect plan(s), nothing applied):\n");
    reveal_strlit("nothing applied");
    let said = "nothing applied"@;
    assert(note.subrange(17, 32) =~= said);
    let before = head + note.take(17);
    let after = note.skip(32) + all + last;
    assert(preview =~= before + said + after);
    lemma_mentions(before, said, after);
    let start = "COMMITTED ("@ + count;
    assert(done.subrange(0, start.len() as int) =~= start);
    lemma_mentions(start + " effect plan(s)):\n"@, all, Seq::empty());
}

/// The commands that connect a mount of a kind: for Google, the app, an account by its email and
/// the mount under the name of the kind; for the others, an account of the kind by its label and
/// the mount.
pub open spec fn way_to_connect(kind: Seq<char>) -> Seq<char> {
    if kind == "gmail"@ || kind == "gdrive"@ || kind == "ga"@ || kind == "google-analytics"@ {
        "`qfs app add google`, `qfs account add google <email>`, then `qfs connect <path> "@ + (
        if kind == "google-analytics"@ {
            "ga"@
        } else {
            kind
        }) + " <email>`"@
    } else {
        "`qfs account add "@ + kind + " <label>`, then `qfs connect <path> "@ + kind + " <label>`"@
    }
}

/// What a mount of a kind that cannot be read lacks, by the name of its service.
pub open spec fn lack_of(kind: Seq<char>) -> Seq<char> {
    if kind == "gmail"@ {
        "this mail mount has no usable Google account — run "@
    } else if kind == "gdrive"@ {
        "this Drive mount has no usable Google account — run "@
    } else if kind == "ga"@ || kind == "google-analytics"@ {
        "this Analytics mount has no usable Google account — run "@
    } else if kind == "github"@ {
        "this GitHub mount has no usable account — run "@
    } else if kind == "slack"@ {
        "this Slack mount has no usable workspace token — run "@
    } else if kind == "s3"@ {
        "this S3 mount has no usable credentials — run "@
    } else {
        "this R2 mount has no usable credentials — run "@
    }
}

/// The hint of a mount that can be read live says which service lacks an account, and then names
/// the commands that connect that very kind.
pub proof fn law_hints_tell_how_to_connect(mount: MountView)
    requires
        facet_for(mount) is Some,
    ensures
        stands_at(hint(mount.kind), 0, lack_of(mount.kind)),
        mentions(hint(mount.kind), way_to_connect(mount.kind)),
{
    let kind = mount.kind;
    lemma_kinds_differ();
    if kind == "gmail"@ {
        reveal_strlit("this mail mount has no usable Google account — run `qfs app add google`, `qfs account add google <email>`, then `qfs connect <path> gmail <email>`");
        reveal_strlit("this mail mount has no usable Google account — run ");
        reveal_strlit("`qfs app add google`, `qfs account add google <email>`, then `qfs connect <path> ");
        reveal_strlit("gmail");
        reveal_strlit(" <email>`");
        let told = "`qfs app add google`, `qfs account add google <email>`, then `qfs connect <path> "@ + "gmail"@ + " <email>`"@;
        let start = "this mail mount has no usable Google account — run "@;
        let rest = Seq::<char>::empty();
        assert(hint(kind) =~= start + told + rest);
        lemma_mentions(start, told, rest);
        assert(hint(kind).subrange(0, start.len() as int) =~= start);
        assert(told =~= way_to_connect(kind));
    }
    if kind == "gdrive"@ {
        reveal_strlit("this Drive mount has no usable Google account — run `qfs app add google`, `qfs account add google <email>`, then `qfs connect <path> gdrive <email>`");
        reveal_strlit("this Drive mount has no usable Google account — run ");
        reveal_strlit("`qfs app add google`, `qfs account add google <email>`, then `qfs connect <path> ");
        reveal_strlit("gdrive");
        reveal_strlit(" <email>`");
        let told = "`qfs app add google`, `qfs account add google <email>`, then `qfs connect <path> "@ + "gdrive"@ + " <email>`"@;
        let start = "this Drive mount has no usable Google account — run "@;
        let rest = Seq::<char>::empty();
        assert(hint(kind) =~= start + told + rest);
        lemma_mentions(start, told, rest);
        assert(hint(kind).subrange(0, start.len() as int) =~= start);
        assert(told =~= way_to_connect(kind));
    }
    if kind == "ga"@ {
        reveal_strlit("this Analytics mount has no usable Google account — run `qfs app add google`, `qfs account add google <email>`, then `qfs connect <path> ga <email>`");
        reveal_strlit("this Analytics mount has no usable Google account — run ");
        reveal_strlit("`qfs app add google`, `qfs account add google <email>`, then `qfs connect <path> ");
        reveal_strlit("ga");
        reveal_strlit(" <email>`");
        let told = "`qfs app add google`, `qfs account add google <email>`, then `qfs connect <path> "@ + "ga"@ + " <email>`"@;
        let start = "this Analytics mount has no usable Google account — run "@;
        let rest = Seq::<char>::empty();
        assert(hint(kind) =~= start + told + rest);
        lemma_mentions(start, told, rest);
        assert(hint(kind).subrange(0, start.len() as int) =~= start);
        assert(told =~= way_to_connect(kind));
    }
    if kind == "google-analytics"@ {
        reveal_strlit("this Analytics mount has no usable Google account — run `qfs app add google`, `qfs account add google <email>`, then `qfs connect <path> ga <email>`");
        reveal_strlit("this Analytics mount has no usable Google account — run ");
        reveal_strlit("`qfs app add google`, `qfs account add google <email>`, then `qfs connect <path> ");
        reveal_strlit("ga");
        reveal_strlit(" <email>`");
        let told = "`qfs app add google`, `qfs account add google <email>`, then `qfs connect <path> "@ + "ga"@ + " <email>`"@;
        let start = "this Analytics mount has no usable Google account — run "@;
        let rest = Seq::<char>::empty();
        assert(hint(kind) =~= start + told + rest);
        lemma_mentions(start, told, rest);
        assert(hint(kind).subrange(0, start.len() as int) =~= start);
        assert(told =~= way_to_connect(kind));
    }
    if kind == "github"@ {
        reveal_strlit("this GitHub mount has no usable account — run `qfs account add github <label>`, then `qfs connect <path> github <label>`");
        reveal_strlit("this GitHub mount has no usable account — run ");
        reveal_strlit("`qfs account add ");
        reveal_strlit("github");
        reveal_strlit(" <label>`, then `qfs connect <path> ");
        reveal_strlit(" <label>`");
        let told = "`qfs account add "@ + "github"@ + " <label>`, then `qfs connect <path> "@ + "github"@ + " <label>`"@;
        let start = "this GitHub mount has no usable account — run "@;
        let rest = Seq::<char>::empty();
        assert(hint(kind) =~= start + told + rest);
        lemma_mentions(start, told, rest);
        assert(hint(kind).subrange(0, start.len() as int) =~= start);
        assert(told =~= way_to_connect(kind));
    }
    if kind == "slack"@ {
        reveal_strlit("this Slack mount has no usable workspace token — run `qfs account add slack <label>`, then `qfs connect <path> slack <label>`");
        reveal_strlit("this Slack mount has no usable workspace token — run ");
        reveal_strlit("`qfs account add ");
        reveal_strlit("slack");
        reveal_strlit(" <label>`, then `qfs connect <path> ");
        reveal_strlit(" <label>`");
        let told = "`qfs account add "@ + "slack"@ + " <label>`, then `qfs connect <path> "@ + "slack"@ + " <label>`"@;
        let start = "this Slack mount has no usable workspace token — run "@;
        let rest = Seq::<char>::empty();
        assert(hint(kind) =~= start + told + rest);
        lemma_mentions(start, told, rest);
        assert(hint(kind).subrange(0, start.len() as int) =~= start);
        assert(told =~= way_to_connect(kind));
    }
    if kind == "s3"@ {
        reveal_strlit("this S3 mount has no usable credentials — run `qfs account add s3 <label>`, then `qfs connect <path> s3 <label>` (S3 reads need a credentialed bucket)");
        reveal_strlit("this S3 mount has no usable credentials — run ");
        reveal_strlit("`qfs account add ");
        reveal_strlit("s3");
        reveal_strlit(" <label>`, then `qfs connect <path> ");
        reveal_strlit(" <label>`");
        reveal_strlit(" (S3 reads need a credentialed bucket)");
        let told = "`qfs account add "@ + "s3"@ + " <label>`, then `qfs connect <path> "@ + "s3"@ + " <label>`"@;
        let start = "this S3 mount has no usable credentials — run "@;
        let rest = " (S3 reads need a credentialed bucket)"@;
        assert(hint(kind) =~= start + told + rest);
        lemma_mentions(start, told, rest);
        assert(hint(kind).subrange(0, start.len() as int) =~= start);
        assert(told =~= way_to_connect(kind));
    }
    if kind == "r2"@ {
        reveal_strlit("this R2 mount has no usable credentials — run `qfs account add r2 <label>`, then `qfs connect <path> r2 <label>`");
        reveal_strlit("this R2 mount has no usable credentials — run ");
        reveal_strlit("`qfs account add ");
        reveal_strlit("r2");
        reveal_strlit(" <label>`, then `qfs connect <path> ");
        reveal_strlit(" <label>`");
        let told = "`qfs account add "@ + "r2"@ + " <label>`, then `qfs connect <path> "@ + "r2"@ + " <label>`"@;
        let start = "this R2 mount has no usable credentials — run "@;
        let rest = Seq::<char>::empty();
        assert(hint(kind) =~= start + told + rest);
        lemma_mentions(start, told, rest);
        assert(hint(kind).subrange(0, start.len() as int) =~= start);
        assert(told =~= way_to_connect(kind));
    }
}

/// No two kinds of the cloud are written alike.
proof fn lemma_kinds_differ()
    ensures
        "gmail"@ != "gdrive"@,
        "gmail"@ != "ga"@,
        "gmail"@ != "google-analytics"@,
        "gdrive"@ != "ga"@,
        "gdrive"@ != "google-analytics"@,
        "ga"@ != "google-analytics"@,
        "github"@ != "gmail"@,
        "github"@ != "gdrive"@,
        "github"@ != "ga"@,
        "github"@ != "google-analytics"@,
        "slack"@ != "gmail"@,
        "slack"@ != "gdrive"@,
        "slack"@ != "ga"@,
        "slack"@ != "google-analytics"@,
        "slack"@ != "github"@,
        "s3"@ != "gmail"@,
        "s3"@ != "gdrive"@,
        "s3"@ != "ga"@,
        "s3"@ != "google-analytics"@,
        "s3"@ != "github"@,
        "s3"@ != "slack"@,
        "r2"@ != "gmail"@,
        "r2"@ != "gdrive"@,
        "r2"@ != "ga"@,
        "r2"@ != "google-analytics"@,
        "r2"@ != "github"@,
        "r2"@ != "slack"@,
        "r2"@ != "s3"@,
{
    reveal_strlit("gmail");
    reveal_strlit("gdrive");
    reveal_strlit("ga");
    reveal_strlit("google-analytics");
    reveal_strlit("github");
    reveal_strlit("slack");
    reveal_strlit("s3");
    reveal_strlit("r2");
    assert("gmail"@[1] == 'm' && "gdrive"@[1] == 'd' && "google-analytics"@[1] == 'o' && "github"@[1]
        == 'i');
    assert("s3"@[0] == 's' && "r2"@[0] == 'r' && "ga"@[0] == 'g');
    assert("s3"@[1] == '3' && "slack"@[1] == 'l');
}

/// Mounts whose drivers know their paths by the same identity are read by the same facet, and
/// mounts of different identities by different ones; a facet that is kept by account is given the
/// mount's own.
pub proof fn law_facets_follow_the_identity(a: MountView, b: MountView)
    requires
        facet_for(a) is Some,
        facet_for(b) is Some,
        a.account == b.account,
    ensures
        facet_for(a) == facet_for(b) <==> canonical(a.kind) == canonical(b.kind),
        match facet_for(a)->Some_0 {
            FacetView::Github(c) => a.account == Some(c) && canonical(a.kind) == Some("github"@),
            FacetView::Slack(c) => a.account == Some(c) && canonical(a.kind) == Some("slack"@),
            FacetView::S3(c) => a.account == Some(c) && canonical(a.kind) == Some("s3"@),
            FacetView::R2(c) => a.account == Some(c) && canonical(a.kind) == Some("r2"@),
            FacetView::Gmail => canonical(a.kind) == Some("mail"@),
            FacetView::Gdrive => canonical(a.kind) == Some("drive"@),
            FacetView::Analytics => canonical(a.kind) == Some("ga"@),
        },
{
    lemma_kinds_differ();
    reveal_strlit("mail");
    reveal_strlit("drive");
    reveal_strlit("ga");
    reveal_strlit("github");
    reveal_strlit("slack");
    reveal_strlit("s3");
    reveal_strlit("r2");
    assert("mail"@[0] == 'm' && "drive"@[0] == 'd');
    assert("ga"@[0] == 'g' && "github"@[0] == 'g' && "slack"@[0] == 's' && "s3"@[0] == 's'
        && "r2"@[0] == 'r');
}

/// What can be planned on can be read: `sql` and `git` are planned on exactly where they are
/// registered for reading, the local files always.
pub proof fn law_planned_mounts_can_be_read(world: Surroundings)
    requires
        world.sessions is None,
    ensures
        planned_mounts(world).contains("local"@) && system_reads(world).contains(
            ("local"@, RegisteredView::System),
        ),
        planned_mounts(world).contains("sql"@) <==> system_reads(world).contains(
            ("sql"@, RegisteredView::System),
        ),
        planned_mounts(world).contains("git"@) <==> system_reads(world).contains(
            ("git"@, RegisteredView::System),
        ),
        system_reads(world).contains(("sys"@, RegisteredView::System)) <==> world.system,
        planned_mounts(world).contains("sys"@),
{
    reveal_strlit("local");
    reveal_strlit("sql");
    reveal_strlit("git");
    reveal_strlit("sys");
    assert("local"@[0] == 'l' && "sql"@[1] == 'q' && "git"@[0] == 'g' && "sys"@[1] == 'y');
    let p = planned_mounts(world);
    let r = system_reads(world);
    assert(p[0] == "local"@);
    assert(r[0] == ("local"@, RegisteredView::System));
    assert(p[p.len() - 1] == "sys"@);
    let k: int = if world.system {
        1
    } else {
        0
    };
    if world.system {
        assert(r[1] == ("sys"@, RegisteredView::System));
    }
    if world.sql {
        assert(p[1] == "sql"@);
        assert(r[k + 1] == ("sql"@, RegisteredView::System));
    }
    if world.git {
        assert(p[p.len() - 2] == "git"@);
        assert(r[r.len() - 1] == ("git"@, RegisteredView::System));
    }
}

/// The word that applies what was previewed counts in any case and with white space around it, and
/// nothing but that word does.
pub proof fn law_only_the_word_commits(line: Seq<char>, other: Seq<char>)
    ensures
        is_commit(line) ==> trimmed(line).len() == 6,
        folded(trimmed(line)) == "commit"@ <==> is_commit(line),
        folded(trimmed(line)) == folded(trimmed(other)) ==> is_commit(line) == is_commit(other),
{
    reveal_strlit("COMMIT");
    reveal_strlit("commit");
    assert(folded("COMMIT"@) =~= "commit"@);
    assert(folded(trimmed(line)).len() == trimmed(line).len());
}

/// A mount with an account is read live wherever its kind is of the cloud, but for the one kind
/// that has no reads; a mount without one never is.
pub proof fn law_accounts_make_mounts_readable(mount: MountView)
    ensures
        facet_for(mount) is Some <==> mount.account is Some && canonical(mount.kind) is Some
            && mount.kind != "cf"@,
{
    reveal_strlit("cf");
    reveal_strlit("gmail");
    reveal_strlit("gdrive");
    reveal_strlit("ga");
    reveal_strlit("google-analytics");
    reveal_strlit("github");
    reveal_strlit("slack");
    reveal_strlit("s3");
    reveal_strlit("r2");
    assert("cf"@[0] == 'c' && "ga"@[0] == 'g' && "s3"@[0] == 's' && "r2"@[0] == 'r');
    assert("gmail"@[0] == 'g' && "gdrive"@[0] == 'g' && "google-analytics"@[0] == 'g' && "github"@[0]
        == 'g' && "slack"@[0] == 's');
}

} // verus!
