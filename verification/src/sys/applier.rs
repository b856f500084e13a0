//! Applying effects under `/sys`: which few writes are let through, and to where.
//!
//! A policy may be inserted; a setting, a billing tier and a defined path may be inserted or
//! upserted; a defined path may be removed. Everything else is refused here, whatever a plan may
//! have let through before: the audit log is append-only, the other views are read-only.
use crate::plan::{AppliedEffect, ApplyError, EffectKind, EffectNode, EffectOutput};
use crate::text::{opt_view, slashless, stands_at, strip_prefix, trim_slashes};
use crate::txn::EffectError;
use crate::types::value::RowBatch;
use std::sync::Arc;
use vstd::prelude::*;

verus! {

/// A node under `/sys`.
#[derive(Debug, Clone, PartialEq, Eq)]
#[non_exhaustive]
pub enum SysNode {
    /// The policies.
    Policies,
    /// The settings of the deployment.
    Settings,
    /// The billing tiers of the teams.
    Billing,
    /// The defined paths.
    Paths,
    /// Any other view, by its segment.
    View(String),
}

/// Why an effect was not applied.
#[derive(Debug, Clone, PartialEq, Eq)]
#[non_exhaustive]
pub enum SysError {
    /// The path names no node.
    UnknownNode { path: String },
    /// The effect lacks what it needs.
    MalformedEffect { reason: String },
    /// The node does not take this verb.
    AppendOnly { node: String, verb: String },
    /// The backend failed.
    Backend { reason: String },
}

/// What a [`SysError`] holds.
#[verifier::ext_equal]
pub ghost enum SysErrorView {
    UnknownNode { path: Seq<char> },
    MalformedEffect { reason: Seq<char> },
    AppendOnly { node: Seq<char>, verb: Seq<char> },
    Backend { reason: Seq<char> },
}

impl View for SysError {
    type V = SysErrorView;

    open spec fn view(&self) -> SysErrorView {
        match self {
            SysError::UnknownNode { path } => SysErrorView::UnknownNode { path: path@ },
            SysError::MalformedEffect { reason } => SysErrorView::MalformedEffect {
                reason: reason@,
            },
            SysError::AppendOnly { node, verb } => SysErrorView::AppendOnly {
                node: node@,
                verb: verb@,
            },
            SysError::Backend { reason } => SysErrorView::Backend { reason: reason@ },
        }
    }
}

impl SysErrorView {
    /// The message for people.
    pub open spec fn text(self) -> Seq<char> {
        match self {
            SysErrorView::UnknownNode { path } => "unknown /sys node: "@ + path,
            SysErrorView::MalformedEffect { reason } => "malformed effect: "@ + reason,
            SysErrorView::AppendOnly { node, verb } => "/sys/"@ + node + " does not accept "@ + verb,
            SysErrorView::Backend { reason } => reason,
        }
    }
}

impl SysError {
    /// The message for people.
    pub fn message(&self) -> (r: String)
        ensures
            r@ == self@.text(),
    {
        match self {
            SysError::UnknownNode { path } => {
                let mut r: String = "unknown /sys node: ".to_owned();
                r.append(path.as_str());
                r
            },
            SysError::MalformedEffect { reason } => {
                let mut r: String = "malformed effect: ".to_owned();
                r.append(reason.as_str());
                r
            },
            SysError::AppendOnly { node, verb } => {
                let mut r: String = "/sys/".to_owned();
                r.append(node.as_str());
                r.append(" does not accept ");
                r.append(verb.as_str());
                r
            },
            SysError::Backend { reason } => reason.clone(),
        }
    }
}

/// What holds the administration's tables.
pub trait SysBackend {
    /// The rows of a view.
    fn scan(&self, node: SysNode) -> Result<RowBatch, SysError>;

    /// Adds a policy.
    fn insert_policy(&self, row: &RowBatch) -> Result<u64, SysError>;

    /// Sets a setting.
    fn set_setting(&self, row: &RowBatch) -> Result<u64, SysError>;

    /// Records a team's billing tier.
    fn set_billing(&self, row: &RowBatch) -> Result<u64, SysError>;

    /// Binds a defined path.
    fn upsert_binding(&self, row: &RowBatch) -> Result<u64, SysError>;

    /// Removes a defined path.
    fn remove_binding(&self, path: &str) -> Result<u64, SysError>;
}

/// The segment of a node.
pub open spec fn segment_of(node: SysNode) -> Seq<char> {
    match node {
        SysNode::Policies => "policies"@,
        SysNode::Settings => "settings"@,
        SysNode::Billing => "billing"@,
        SysNode::Paths => "paths"@,
        SysNode::View(name) => name@,
    }
}

impl SysNode {
    /// The node's segment.
    #[must_use]
    pub fn segment(&self) -> (r: &str)
        ensures
            r@ == segment_of(*self),
    {
        match self {
            SysNode::Policies => "policies",
            SysNode::Settings => "settings",
            SysNode::Billing => "billing",
            SysNode::Paths => "paths",
            SysNode::View(name) => name.as_str(),
        }
    }
}

/// The label of a verb.
pub open spec fn verb_label(kind: EffectKind) -> Seq<char> {
    match kind {
        EffectKind::Read => "READ"@,
        EffectKind::List => "LIST"@,
        EffectKind::Insert => "INSERT"@,
        EffectKind::Upsert => "UPSERT"@,
        EffectKind::Update => "UPDATE"@,
        EffectKind::Remove => "REMOVE"@,
        EffectKind::Call(_) => "CALL"@,
    }
}

/// The label of a verb.
pub fn static_verb_label(kind: &EffectKind) -> (r: &'static str)
    ensures
        r@ == verb_label(*kind),
{
    match kind {
        EffectKind::Read => "READ",
        EffectKind::List => "LIST",
        EffectKind::Insert => "INSERT",
        EffectKind::Upsert => "UPSERT",
        EffectKind::Update => "UPDATE",
        EffectKind::Remove => "REMOVE",
        EffectKind::Call(_) => "CALL",
    }
}

/// What follows the node in a target under `/sys/paths`.
pub open spec fn after_paths(target: Seq<char>) -> Option<Seq<char>> {
    if stands_at(target, 0, "/sys/paths/"@) {
        Some(target.subrange("/sys/paths/"@.len() as int, target.len() as int))
    } else if stands_at(target, 0, "sys/paths/"@) {
        Some(target.subrange("sys/paths/"@.len() as int, target.len() as int))
    } else {
        None
    }
}

/// The defined path that a target under `/sys/paths` names, if it names one.
pub open spec fn defined_path(target: Seq<char>) -> Option<Seq<char>> {
    match after_paths(target) {
        Some(rest) => if slashless(rest).len() > 0 {
            Some("/"@ + slashless(rest))
        } else {
            None
        },
        None => None,
    }
}

/// The defined path that a target under `/sys/paths` names: `/sys/paths/work/orders` names
/// `/work/orders`, the bare `/sys/paths` none.
pub fn defined_path_from_target(target: &str) -> (r: Option<String>)
    ensures
        opt_view(r) == defined_path(target@),
{
    let rest: String = match strip_prefix(target, "/sys/paths/") {
        Some(rest) => rest,
        None => match strip_prefix(target, "sys/paths/") {
            Some(rest) => rest,
            None => return None,
        },
    };
    let bare: String = trim_slashes(rest.as_str());
    if bare.as_str().is_empty() {
        return None;
    }
    let mut r: String = "/".to_owned();
    r.append(bare.as_str());
    Some(r)
}

/// Where an effect goes.
#[verifier::ext_equal]
pub ghost enum RouteView {
    InsertPolicy,
    SetSetting,
    SetBilling,
    UpsertBinding,
    RemoveBinding(Seq<char>),
    Refuse(SysErrorView),
}

/// Where an effect on a node goes.
pub open spec fn route_of(kind: EffectKind, node: Option<SysNode>, path: Seq<char>) -> RouteView {
    match node {
        None => RouteView::Refuse(SysErrorView::UnknownNode { path }),
        Some(n) => match (kind, n) {
            (EffectKind::Insert, SysNode::Policies) => RouteView::InsertPolicy,
            (EffectKind::Insert, SysNode::Settings) => RouteView::SetSetting,
            (EffectKind::Upsert, SysNode::Settings) => RouteView::SetSetting,
            (EffectKind::Insert, SysNode::Billing) => RouteView::SetBilling,
            (EffectKind::Upsert, SysNode::Billing) => RouteView::SetBilling,
            (EffectKind::Insert, SysNode::Paths) => RouteView::UpsertBinding,
            (EffectKind::Upsert, SysNode::Paths) => RouteView::UpsertBinding,
            (EffectKind::Remove, SysNode::Paths) => match defined_path(path) {
                Some(p) => RouteView::RemoveBinding(p),
                None => RouteView::Refuse(
                    SysErrorView::MalformedEffect {
                        reason: "DISCONNECT needs a path, e.g. REMOVE /sys/paths/work/orders"@,
                    },
                ),
            },
            _ => RouteView::Refuse(
                SysErrorView::AppendOnly { node: segment_of(n), verb: verb_label(kind) },
            ),
        },
    }
}

/// Where an effect goes.
#[derive(Debug, Clone, PartialEq, Eq)]
pub enum Route {
    /// To the policies.
    InsertPolicy,
    /// To the settings.
    SetSetting,
    /// To the billing tiers.
    SetBilling,
    /// To the defined paths.
    UpsertBinding,
    /// To the removal of this defined path.
    RemoveBinding(String),
    /// Nowhere.
    Refuse(SysError),
}

impl View for Route {
    type V = RouteView;

    open spec fn view(&self) -> RouteView {
        match self {
            Route::InsertPolicy => RouteView::InsertPolicy,
            Route::SetSetting => RouteView::SetSetting,
            Route::SetBilling => RouteView::SetBilling,
            Route::UpsertBinding => RouteView::UpsertBinding,
            Route::RemoveBinding(p) => RouteView::RemoveBinding(p@),
            Route::Refuse(e) => RouteView::Refuse(e@),
        }
    }
}

/// Where an effect goes. `node` is what the path addresses.
pub fn route(kind: &EffectKind, node: &Option<SysNode>, path: &str) -> (r: Route)
    ensures
        r@ == route_of(*kind, *node, path@),
{
    let n: &SysNode = match node {
        Some(n) => n,
        None => return Route::Refuse(SysError::UnknownNode { path: path.to_owned() }),
    };
    match (kind, n) {
        (EffectKind::Insert, SysNode::Policies) => Route::InsertPolicy,
        (EffectKind::Insert, SysNode::Settings) => Route::SetSetting,
        (EffectKind::Upsert, SysNode::Settings) => Route::SetSetting,
        (EffectKind::Insert, SysNode::Billing) => Route::SetBilling,
        (EffectKind::Upsert, SysNode::Billing) => Route::SetBilling,
        (EffectKind::Insert, SysNode::Paths) => Route::UpsertBinding,
        (EffectKind::Upsert, SysNode::Paths) => Route::UpsertBinding,
        (EffectKind::Remove, SysNode::Paths) => match defined_path_from_target(path) {
            Some(p) => Route::RemoveBinding(p),
            None => Route::Refuse(
                SysError::MalformedEffect {
                    reason: "DISCONNECT needs a path, e.g. REMOVE /sys/paths/work/orders".to_owned(),
                },
            ),
        },
        _ => Route::Refuse(
            SysError::AppendOnly {
                node: n.segment().to_owned(),
                verb: static_verb_label(kind).to_owned(),
            },
        ),
    }
}

/// What applies effects under `/sys`.
pub struct SysApplier<B: SysBackend> {
    backend: Arc<B>,
}

/// `r` is what an effect that goes this way comes to: the backend's answer, or the refusal without
/// the backend being asked.
pub open spec fn routed<B: SysBackend>(
    backend: B,
    route: RouteView,
    args: RowBatch,
    r: Result<u64, SysError>,
) -> bool {
    match route {
        RouteView::InsertPolicy => call_ensures(B::insert_policy, (&backend, &args), r),
        RouteView::SetSetting => call_ensures(B::set_setting, (&backend, &args), r),
        RouteView::SetBilling => call_ensures(B::set_billing, (&backend, &args), r),
        RouteView::UpsertBinding => call_ensures(B::upsert_binding, (&backend, &args), r),
        RouteView::RemoveBinding(p) => exists|path: &str|
            path@ == p && #[trigger] call_ensures(B::remove_binding, (&backend, path), r),
        RouteView::Refuse(e) => r is Err && r->Err_0@ == e,
    }
}

impl<B: SysBackend> SysApplier<B> {
    /// The backend.
    pub closed spec fn backend(&self) -> B {
        *self.backend
    }

    /// An applier over a backend.
    #[must_use]
    pub fn new(backend: Arc<B>) -> (r: SysApplier<B>)
        ensures
            r.backend() == *backend,
    {
        SysApplier { backend }
    }

    /// Applies one effect. `sys_node` is what the effect's path addresses.
    ///
    /// # Errors
    /// The refusal of an effect that goes nowhere, or the backend's error.
    pub fn apply_node(&self, node: &EffectNode, sys_node: &Option<SysNode>) -> (r: Result<
        u64,
        SysError,
    >)
        ensures
            routed(
                self.backend(),
                route_of(node.kind, *sys_node, node.target.path@),
                node.args,
                r,
            ),
    {
        match route(&node.kind, sys_node, node.target.path.as_str()) {
            Route::InsertPolicy => self.backend.insert_policy(&node.args),
            Route::SetSetting => self.backend.set_setting(&node.args),
            Route::SetBilling => self.backend.set_billing(&node.args),
            Route::UpsertBinding => self.backend.upsert_binding(&node.args),
            Route::RemoveBinding(p) => self.backend.remove_binding(p.as_str()),
            Route::Refuse(e) => Err(e),
        }
    }

    /// Applies one effect within a commit.
    ///
    /// # Errors
    /// A terminal [`EffectError`] with the message of what stopped the effect.
    pub fn apply_shared(&self, node: &EffectNode, sys_node: &Option<SysNode>) -> (r: Result<
        EffectOutput,
        EffectError,
    >)
        ensures
            exists|applied: Result<u64, SysError>| #[trigger]
                routed(
                    self.backend(),
                    route_of(node.kind, *sys_node, node.target.path@),
                    node.args,
                    applied,
                ) && match applied {
                    Ok(n) => r == Ok::<EffectOutput, EffectError>(
                        EffectOutput { id: node.id, affected: n },
                    ),
                    Err(e) => r is Err && r->Err_0 is Terminal && r->Err_0->Terminal_reason@
                        == e@.text(),
                },
    {
        let applied: Result<u64, SysError> = self.apply_node(node, sys_node);
        let ghost given = applied;
        assert(routed(
            self.backend(),
            route_of(node.kind, *sys_node, node.target.path@),
            node.args,
            given,
        ));
        match applied {
            Ok(n) => Ok(EffectOutput { id: node.id, affected: n }),
            Err(e) => Err(EffectError::terminal(e.message())),
        }
    }

    /// Applies one effect of a plan.
    ///
    /// # Errors
    /// An [`ApplyError`] with the message of what stopped the effect.
    pub fn apply(&self, node: &EffectNode, sys_node: &Option<SysNode>) -> (r: Result<
        AppliedEffect,
        ApplyError,
    >)
        ensures
            exists|applied: Result<u64, SysError>| #[trigger]
                routed(
                    self.backend(),
                    route_of(node.kind, *sys_node, node.target.path@),
                    node.args,
                    applied,
                ) && match applied {
                    Ok(n) => r == Ok::<AppliedEffect, ApplyError>(
                        AppliedEffect { id: node.id, affected: n },
                    ),
                    Err(e) => r is Err && r->Err_0.id == node.id && r->Err_0.reason@ == e@.text(),
                },
    {
        let applied: Result<u64, SysError> = self.apply_node(node, sys_node);
        let ghost given = applied;
        assert(routed(
            self.backend(),
            route_of(node.kind, *sys_node, node.target.path@),
            node.args,
            given,
        ));
        match applied {
            Ok(n) => Ok(AppliedEffect { id: node.id, affected: n }),
            Err(e) => Err(ApplyError { id: node.id, reason: e.message() }),
        }
    }
}

impl<B: SysBackend> Clone for SysApplier<B> {
    fn clone(&self) -> (r: SysApplier<B>)
        ensures
            r.backend() == self.backend(),
    {
        SysApplier { backend: Arc::clone(&self.backend) }
    }
}

// ---- laws ------------------------------------------------------------------------------------

/// No write of any kind reaches the audit log or another view: each is refused without the backend
/// being asked.
pub proof fn law_views_take_no_write(kind: EffectKind, name: String, path: Seq<char>)
    ensures
        route_of(kind, Some(SysNode::View(name)), path) == RouteView::Refuse(
            SysErrorView::AppendOnly { node: name@, verb: verb_label(kind) },
        ),
{
}

/// A policy can be added but never changed or removed.
pub proof fn law_policies_are_only_added(kind: EffectKind, path: Seq<char>)
    ensures
        route_of(kind, Some(SysNode::Policies), path) is Refuse <==> kind !is Insert,
{
}

/// A path with a `/` in front and none at its end, as paths are defined.
pub open spec fn is_defined_path(p: Seq<char>) -> bool {
    p.len() > 1 && p[0] == '/' && p[1] != '/' && p.last() != '/'
}

/// Removing a defined path reaches the binding of that very path: the target `/sys/paths` followed
/// by the path names it.
pub proof fn law_disconnect_names_the_path(p: Seq<char>)
    requires
        is_defined_path(p),
    ensures
        route_of(EffectKind::Remove, Some(SysNode::Paths), "/sys/paths"@ + p)
            == RouteView::RemoveBinding(p),
{
    reveal_strlit("/sys/paths");
    reveal_strlit("/sys/paths/");
    reveal_strlit("/");
    let t = "/sys/paths"@ + p;
    let rest = p.subrange(1, p.len() as int);
    assert(t.subrange(0, 11) =~= "/sys/paths/"@);
    assert(t.subrange(11, t.len() as int) =~= rest);
    assert(rest.last() == p.last());
    assert(rest[0] == p[1]);
    assert(slashless(rest) == rest);
    assert("/"@ + rest =~= p);
}

/// `INSERT` and `UPSERT` do the same on the settings, the billing and the paths, whose rows are
/// kept by key: both reach the backend, and by the same call.
pub proof fn law_insert_and_upsert_are_one(node: SysNode, path: Seq<char>)
    requires
        node is Settings || node is Billing || node is Paths,
    ensures
        route_of(EffectKind::Insert, Some(node), path) == route_of(
            EffectKind::Upsert,
            Some(node),
            path,
        ),
        !(route_of(EffectKind::Upsert, Some(node), path) is Refuse),
{
}

/// What is written under one node reaches that node's call of the backend and no other's, and
/// only `INSERT`, `UPSERT` and `REMOVE` reach one at all.
pub proof fn law_writes_reach_their_own_node(
    kind: EffectKind,
    node: Option<SysNode>,
    path: Seq<char>,
)
    ensures
        match route_of(kind, node, path) {
            RouteView::InsertPolicy => node == Some(SysNode::Policies) && kind is Insert,
            RouteView::SetSetting => node == Some(SysNode::Settings) && !(kind is Remove),
            RouteView::SetBilling => node == Some(SysNode::Billing) && !(kind is Remove),
            RouteView::UpsertBinding => node == Some(SysNode::Paths) && !(kind is Remove),
            RouteView::RemoveBinding(_) => node == Some(SysNode::Paths) && kind is Remove,
            RouteView::Refuse(e) => node is None <==> e is UnknownNode,
        },
        !(route_of(kind, node, path) is Refuse) ==> kind is Insert || kind is Upsert
            || kind is Remove,
{
}

/// A refusal says what was refused: the path, where nothing is addressed by it, and else the node
/// by the name it is addressed by and the verb as it is written.
pub proof fn law_refusals_say_what_was_refused(
    kind: EffectKind,
    node: Option<SysNode>,
    path: Seq<char>,
)
    requires
        route_of(kind, node, path) is Refuse,
    ensures
        ({
            let said = route_of(kind, node, path)->Refuse_0.text();
            match node {
                None => said == "unknown /sys node: "@ + path,
                Some(n) => {
                    let name = match n {
                        SysNode::Policies => "policies"@,
                        SysNode::Settings => "settings"@,
                        SysNode::Billing => "billing"@,
                        SysNode::Paths => "paths"@,
                        SysNode::View(name) => name@,
                    };
                    let about = "/sys/"@ + name + " does not accept "@;
                    match kind {
                        EffectKind::Read => said == about + "READ"@,
                        EffectKind::List => said == about + "LIST"@,
                        EffectKind::Insert => said == about + "INSERT"@,
                        EffectKind::Upsert => said == about + "UPSERT"@,
                        EffectKind::Update => said == about + "UPDATE"@,
                        EffectKind::Call(_) => said == about + "CALL"@,
                        EffectKind::Remove => if n is Paths {
                            stands_at(said, 0, "malformed effect: "@)
                        } else {
                            said == about + "REMOVE"@
                        },
                    }
                },
            }
        }),
{
    let said = route_of(kind, node, path)->Refuse_0.text();
    if kind is Remove && node == Some(SysNode::Paths) {
        let start = "malformed effect: "@;
        assert(said.subrange(0, start.len() as int) =~= start);
    }
}

/// An effect is answered under its own number, whatever came of it; one that is refused fails with
/// the refusal's message, in a commit as in a plan, and the backend's own message is passed on as
/// it is.
pub proof fn law_effects_are_answered_under_their_number<B: SysBackend>(
    applier: SysApplier<B>,
    node: EffectNode,
    sys_node: Option<SysNode>,
    in_plan: Result<AppliedEffect, ApplyError>,
    in_commit: Result<EffectOutput, EffectError>,
)
    requires
        call_ensures(SysApplier::<B>::apply, (&applier, &node, &sys_node), in_plan),
        call_ensures(SysApplier::<B>::apply_shared, (&applier, &node, &sys_node), in_commit),
    ensures
        match in_plan {
            Ok(done) => done.id == node.id,
            Err(e) => e.id == node.id,
        },
        in_commit matches Ok(done) ==> done.id == node.id,
        route_of(node.kind, sys_node, node.target.path@) matches RouteView::Refuse(e) ==> {
            &&& in_plan is Err
            &&& in_plan->Err_0.reason@ == e.text()
            &&& in_commit is Err
            &&& in_commit->Err_0 is Terminal
            &&& in_commit->Err_0->Terminal_reason@ == e.text()
        },
        forall|reason: Seq<char>| #[trigger]
            (SysErrorView::Backend { reason }).text() == reason,
{
}

/// A path below the list of paths names the same path with and without the slash in front, and a
/// path anywhere else names none.
pub proof fn law_paths_are_named_with_or_without_a_slash(rest: Seq<char>, other: Seq<char>)
    requires
        !stands_at(other, 0, "/sys/paths/"@),
        !stands_at(other, 0, "sys/paths/"@),
    ensures
        defined_path("/sys/paths/"@ + rest) == defined_path("sys/paths/"@ + rest),
        defined_path(other) is None,
        defined_path("/sys/paths/"@ + rest) is Some <==> slashless(rest).len() > 0,
{
    reveal_strlit("/sys/paths/");
    reveal_strlit("sys/paths/");
    let a = "/sys/paths/"@ + rest;
    let b = "sys/paths/"@ + rest;
    assert(a.subrange(0, 11) =~= "/sys/paths/"@);
    assert(a.subrange(11, a.len() as int) =~= rest);
    assert(b.subrange(0, 10) =~= "sys/paths/"@);
    assert(b.subrange(10, b.len() as int) =~= rest);
    assert(b[0] == 's');
    if stands_at(b, 0, "/sys/paths/"@) {
        assert(b.subrange(0, 11)[0] == '/');
    }
}

} // verus!
