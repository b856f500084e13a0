//! The cloud mounts among the defined paths: which exist, of which kind each is and to which
//! account it is bound.
//!
//! A cloud mount is a path bound to a cloud kind in its own right. An alias is none: it goes by
//! the registration of its target. Neither is a path bound to a local kind.
use crate::secrets::key::DriverId;
use crate::text::{at, chars_of, clone_option, opt_view, same, stands_at, string_of};
use vstd::prelude::*;

verus! {

/// One row of the registry of defined paths.
#[derive(Debug, Clone, PartialEq, Eq)]
pub struct PathBindingRow {
    /// The defined path.
    pub path: String,
    /// The kind that the path is bound to. An alias has none.
    pub driver_id: Option<String>,
    /// Where the bound service is.
    pub at_locator: Option<String>,
    /// What names the secret.
    pub secret_ref: Option<String>,
    /// The path that this one is an alias of.
    pub alias_of: Option<String>,
    /// The host that the binding holds on.
    pub host: String,
    /// The account that the binding carries.
    pub account: Option<String>,
    /// When the row was written.
    pub created_at: String,
}

/// One cloud mount.
#[derive(Debug, Clone, PartialEq, Eq)]
pub struct CloudMount {
    /// The defined path, e.g. `/mail2`.
    pub path: String,
    /// The cloud kind, e.g. `gmail`.
    pub kind: String,
    /// The account that the mount carries. Nothing is registered for a mount without one.
    pub account: Option<String>,
}

/// What a [`CloudMount`] holds.
#[verifier::ext_equal]
pub ghost struct MountView {
    pub path: Seq<char>,
    pub kind: Seq<char>,
    pub account: Option<Seq<char>>,
}

impl View for CloudMount {
    type V = MountView;

    open spec fn view(&self) -> MountView {
        MountView { path: self.path@, kind: self.kind@, account: opt_view(self.account) }
    }
}

/// What the mounts of a list hold.
pub open spec fn mount_views(mounts: Seq<CloudMount>) -> Seq<MountView> {
    mounts.map_values(|m: CloudMount| m@)
}

/// The identity under which the driver of a cloud kind knows its own paths.
pub open spec fn canonical(kind: Seq<char>) -> Option<Seq<char>> {
    if kind == "gmail"@ {
        Some("mail"@)
    } else if kind == "gdrive"@ {
        Some("drive"@)
    } else if kind == "ga"@ || kind == "google-analytics"@ {
        Some("ga"@)
    } else if kind == "github"@ {
        Some("github"@)
    } else if kind == "slack"@ {
        Some("slack"@)
    } else if kind == "s3"@ {
        Some("s3"@)
    } else if kind == "r2"@ {
        Some("r2"@)
    } else if kind == "cf"@ {
        Some("cf"@)
    } else {
        None
    }
}

/// The identity under which the driver of a cloud kind knows its own paths; `None` for a kind
/// that is not of the cloud.
#[must_use]
pub fn canonical_id(kind: &str) -> (r: Option<&'static str>)
    ensures
        crate::text::opt_str(r) == canonical(kind@),
{
    if same(kind, "gmail") {
        Some("mail")
    } else if same(kind, "gdrive") {
        Some("drive")
    } else if same(kind, "ga") || same(kind, "google-analytics") {
        Some("ga")
    } else if same(kind, "github") {
        Some("github")
    } else if same(kind, "slack") {
        Some("slack")
    } else if same(kind, "s3") {
        Some("s3")
    } else if same(kind, "r2") {
        Some("r2")
    } else if same(kind, "cf") {
        Some("cf")
    } else {
        None
    }
}

/// The mount that a row stands for, if it stands for one.
pub open spec fn mount_of(row: PathBindingRow) -> Option<MountView> {
    match row.driver_id {
        Some(kind) => if row.alias_of is None && canonical(kind@) is Some {
            Some(MountView { path: row.path@, kind: kind@, account: opt_view(row.account) })
        } else {
            None
        },
        None => None,
    }
}

/// The mounts among the rows, in the order of the rows.
pub open spec fn mounts_among(rows: Seq<PathBindingRow>) -> Seq<MountView>
    decreases rows.len(),
{
    if rows.len() == 0 {
        Seq::empty()
    } else {
        let before = mounts_among(rows.drop_last());
        match mount_of(rows.last()) {
            Some(m) => before.push(m),
            None => before,
        }
    }
}

fn row_mount(row: &PathBindingRow) -> (r: Option<CloudMount>)
    ensures
        match r {
            Some(m) => mount_of(*row) == Some(m@),
            None => mount_of(*row) is None,
        },
{
    if row.alias_of.is_some() {
        return None;
    }
    let kind: &String = match &row.driver_id {
        Some(k) => k,
        None => return None,
    };
    if canonical_id(kind.as_str()).is_none() {
        return None;
    }
    Some(
        CloudMount {
            path: row.path.clone(),
            kind: kind.clone(),
            account: clone_option(&row.account),
        },
    )
}

/// The cloud mounts among the rows of the registry.
#[must_use]
pub fn cloud_mounts_from(bindings: &Vec<PathBindingRow>) -> (r: Vec<CloudMount>)
    ensures
        mount_views(r@) == mounts_among(bindings@),
{
    let mut r: Vec<CloudMount> = Vec::new();
    let mut i: usize = 0;
    assert(mount_views(r@) =~= Seq::empty());
    while i < bindings.len()
        invariant
            i <= bindings.len(),
            mount_views(r@) == mounts_among(bindings@.take(i as int)),
        decreases bindings.len() - i,
    {
        assert(bindings@.take(i + 1).drop_last() =~= bindings@.take(i as int));
        let ghost had = mount_views(r@);
        match row_mount(&bindings[i]) {
            Some(m) => {
                r.push(m);
                assert(mount_views(r@) =~= had.push(m@));
            },
            None => {},
        }
        i = i + 1;
    }
    assert(bindings@.take(i as int) =~= bindings@);
    r
}

/// The cloud mounts of a registry that may be absent or unreadable: of such a one there are none.
#[must_use]
pub fn load_cloud_mounts(bindings: Option<Vec<PathBindingRow>>) -> (r: Vec<CloudMount>)
    ensures
        mount_views(r@) == match bindings {
            Some(rows) => mounts_among(rows@),
            None => Seq::empty(),
        },
{
    match bindings {
        Some(rows) => cloud_mounts_from(&rows),
        None => {
            let r: Vec<CloudMount> = Vec::new();
            assert(mount_views(r@) =~= Seq::empty());
            r
        },
    }
}

/// A path that something can be mounted at: `/` and then segments, none of them empty.
pub open spec fn is_mount_path(s: Seq<char>) -> bool {
    &&& s.len() > 1
    &&& s[0] == '/'
    &&& s.last() != '/'
    &&& forall|i: int| 0 <= i < s.len() - 1 ==> !(#[trigger] s[i] == '/' && s[i + 1] == '/')
}

/// Whether `p` is the path `outer` or lies below it.
pub open spec fn is_below(p: Seq<char>, outer: Seq<char>) -> bool {
    stands_at(p, 0, outer) && (p.len() == outer.len() || p[outer.len() as int] == '/')
}

/// The path that the driver `inner` knows for a path at or below the mount `outer`. Any other
/// path stays as it is.
pub open spec fn path_inward(outer: Seq<char>, inner: Seq<char>, p: Seq<char>) -> Seq<char> {
    if is_below(p, outer) {
        seq!['/'] + inner + p.subrange(outer.len() as int, p.len() as int)
    } else {
        p
    }
}

/// The arithmetic between the paths below a mount and those that its driver knows.
#[derive(Debug)]
pub struct MountRemap {
    outer: String,
    inner: String,
}

impl MountRemap {
    #[verifier::type_invariant]
    spec fn inv(self) -> bool {
        is_mount_path(self.outer@)
    }

    /// The path of the mount.
    pub closed spec fn outer(&self) -> Seq<char> {
        self.outer@
    }

    /// The identity under which the driver knows its paths.
    pub closed spec fn inner(&self) -> Seq<char> {
        self.inner@
    }

    /// The arithmetic for a driver with the identity `inner` mounted at `path`; `None` where
    /// nothing can be mounted at that path.
    pub fn new(path: &str, inner: &str) -> (r: Option<MountRemap>)
        ensures
            r is Some <==> is_mount_path(path@),
            r matches Some(m) ==> m.outer() == path@ && m.inner() == inner@,
    {
        let v: Vec<char> = chars_of(path);
        if v.len() < 2 || v[0] != '/' || v[v.len() - 1] == '/' {
            return None;
        }
        let mut i: usize = 0;
        while i < v.len() - 1
            invariant
                v@ == path@,
                v.len() >= 2,
                i <= v.len() - 1,
                forall|j: int| 0 <= j < i ==> !(#[trigger] v@[j] == '/' && v@[j + 1] == '/'),
            decreases v.len() - i,
        {
            if v[i] == '/' && v[i + 1] == '/' {
                assert(path@[i as int] == '/' && path@[i + 1] == '/');
                return None;
            }
            i = i + 1;
        }
        Some(MountRemap { outer: path.to_owned(), inner: inner.to_owned() })
    }

    /// The identity under which the mount is registered: its path without the `/` in front.
    pub fn outer_id(&self) -> (r: DriverId)
        ensures
            r@ == self.outer().subrange(1, self.outer().len() as int),
    {
        proof {
            use_type_invariant(self);
        }
        let v: Vec<char> = chars_of(self.outer.as_str());
        DriverId::new(string_of(&v, 1, v.len()).as_str())
    }

    /// The path that the driver knows for `path`.
    pub fn path_in(&self, path: &str) -> (r: String)
        ensures
            r@ == path_inward(self.outer(), self.inner(), path@),
    {
        let v: Vec<char> = chars_of(path);
        let n: usize = chars_of(self.outer.as_str()).len();
        if at(&v, 0, self.outer.as_str()) && (v.len() == n || v[n] == '/') {
            let mut r: String = "/".to_owned();
            proof {
                reveal_strlit("/");
                assert(r@ =~= seq!['/']);
            }
            r.append(self.inner.as_str());
            r.append(string_of(&v, n, v.len()).as_str());
            r
        } else {
            path.to_owned()
        }
    }
}

impl CloudMount {
    /// The arithmetic between this mount's paths and those of its kind's driver; `None` where the
    /// kind is not of the cloud or nothing can be mounted at the path.
    #[must_use]
    pub fn remap(&self) -> (r: Option<MountRemap>)
        ensures
            r is Some <==> canonical(self.kind@) is Some && is_mount_path(self.path@),
            r matches Some(m) ==> m.outer() == self.path@ && Some(m.inner()) == canonical(
                self.kind@,
            ),
    {
        match canonical_id(self.kind.as_str()) {
            Some(id) => MountRemap::new(self.path.as_str(), id),
            None => None,
        }
    }
}

/// Every mount that is listed has a kind of the cloud.
pub proof fn law_listed_mounts_are_of_the_cloud(rows: Seq<PathBindingRow>, i: int)
    requires
        0 <= i < mounts_among(rows).len(),
    ensures
        canonical(mounts_among(rows)[i].kind) is Some,
    decreases rows.len(),
{
    if i < mounts_among(rows.drop_last()).len() {
        law_listed_mounts_are_of_the_cloud(rows.drop_last(), i);
    }
}

/// Distinct paths below one mount stay distinct for its driver, and each begins with the driver's
/// identity.
pub proof fn law_remap_keeps_paths_apart(
    outer: Seq<char>,
    inner: Seq<char>,
    p: Seq<char>,
    q: Seq<char>,
)
    requires
        is_below(p, outer),
        is_below(q, outer),
    ensures
        path_inward(outer, inner, p) == path_inward(outer, inner, q) ==> p == q,
        is_below(path_inward(outer, inner, p), seq!['/'] + inner),
{
    let head = seq!['/'] + inner;
    let tp = p.subrange(outer.len() as int, p.len() as int);
    let tq = q.subrange(outer.len() as int, q.len() as int);
    assert(p =~= outer + tp) by {
        assert(p.subrange(0, outer.len() as int) =~= outer);
    }
    assert(q =~= outer + tq) by {
        assert(q.subrange(0, outer.len() as int) =~= outer);
    }
    let x = path_inward(outer, inner, p);
    let y = path_inward(outer, inner, q);
    assert(x.subrange(0, head.len() as int) =~= head);
    if x == y {
        assert(tp =~= x.subrange(head.len() as int, x.len() as int));
        assert(tq =~= y.subrange(head.len() as int, y.len() as int));
    }
    if tp.len() > 0 {
        assert(x[head.len() as int] == tp[0]);
        assert(tp[0] == p[outer.len() as int]);
    }
}

/// The mounts of two tables, one after the other, are those of the first and then those of the
/// second; one row is a mount exactly if it names a driver of the cloud and is no alias, and the
/// mount has the row's own path, driver and account.
pub proof fn law_mounts_are_the_rows_in_order(
    a: Seq<PathBindingRow>,
    b: Seq<PathBindingRow>,
    row: PathBindingRow,
)
    ensures
        mounts_among(a + b) == mounts_among(a) + mounts_among(b),
        mounts_among(seq![row]).len() == 1 <==> row.alias_of is None && row.driver_id is Some
            && canonical(row.driver_id->Some_0@) is Some,
        mounts_among(seq![row]).len() <= 1,
        mounts_among(seq![row]).len() == 1 ==> ({
            let m = mounts_among(seq![row])[0];
            &&& m.path == row.path@
            &&& Some(m.kind) == opt_view(row.driver_id)
            &&& m.account == opt_view(row.account)
        }),
    decreases b.len(),
{
    assert(seq![row].drop_last() =~= Seq::<PathBindingRow>::empty());
    assert(mounts_among(seq![row].drop_last()).len() == 0);
    if b.len() == 0 {
        assert(a + b =~= a);
        assert(mounts_among(a) + mounts_among(b) =~= mounts_among(a));
    } else {
        law_mounts_are_the_rows_in_order(a, b.drop_last(), row);
        assert((a + b).drop_last() =~= a + b.drop_last());
        assert((a + b).last() == b.last());
        assert(mounts_among(a + b) =~= mounts_among(a) + mounts_among(b));
    }
}

/// A path below the mount keeps all that stands behind the mount, under the driver's own identity,
/// and a path elsewhere stays as it is: turning it back the other way gives it again.
pub proof fn law_remap_keeps_the_rest_of_the_path(
    outer: Seq<char>,
    inner: Seq<char>,
    p: Seq<char>,
    rest: Seq<char>,
)
    requires
        outer.len() > 0,
        outer[0] == '/',
        rest.len() == 0 || rest[0] == '/',
    ensures
        path_inward(outer, inner, outer + rest) == "/"@ + inner + rest,
        is_below(p, outer) ==> path_inward(
            "/"@ + inner,
            outer.drop_first(),
            path_inward(outer, inner, p),
        ) == p,
        !is_below(p, outer) ==> path_inward(outer, inner, p) == p,
{
    reveal_strlit("/");
    assert("/"@ =~= seq!['/']);
    let q = outer + rest;
    assert(q.subrange(0, outer.len() as int) =~= outer);
    assert(q.subrange(outer.len() as int, q.len() as int) =~= rest);
    assert(is_below(q, outer));
    if is_below(p, outer) {
        let inside = path_inward(outer, inner, p);
        let name = "/"@ + inner;
        let behind = p.subrange(outer.len() as int, p.len() as int);
        assert(inside.subrange(0, name.len() as int) =~= name);
        assert(inside.subrange(name.len() as int, inside.len() as int) =~= behind);
        assert(seq!['/'] + outer.drop_first() =~= outer);
        assert(p =~= outer + behind);
    }
}

/// Whether a text is one name in a path: not empty, and without a slash.
pub open spec fn is_path_name(w: Seq<char>) -> bool {
    w.len() > 0 && forall|i: int| 0 <= i < w.len() ==> #[trigger] w[i] != '/'
}

/// A place to mount at is made of names, each behind one slash: a name behind a slash is such a
/// place, and so is a name behind a slash behind another place; nothing with a slash at its end or
/// two in a row is.
pub proof fn law_mount_paths_are_names_behind_slashes(p: Seq<char>, w: Seq<char>)
    requires
        is_path_name(w),
    ensures
        is_mount_path("/"@ + w),
        is_mount_path(p) ==> is_mount_path(p + "/"@ + w),
        is_mount_path(p + "/"@ + w) ==> p.len() == 0 || is_mount_path(p),
        !is_mount_path(p + "/"@),
        !is_mount_path(p + "/"@ + "/"@ + w),
        !is_mount_path(w),
{
    reveal_strlit("/");
    let one = "/"@ + w;
    assert(one[0] == '/');
    assert forall|i: int| 0 <= i < one.len() - 1 implies !(#[trigger] one[i] == '/' && one[i + 1]
        == '/') by {
        assert(one[i + 1] == w[i]);
    }
    assert(one.last() == w.last());
    assert(w.last() == w[w.len() - 1]);
    let n = p.len() as int;
    let s = p + "/"@ + w;
    assert(forall|i: int| 0 <= i < n ==> s[i] == p[i]);
    assert(s[n] == '/');
    assert(forall|i: int| n < i < s.len() ==> s[i] == w[i - n - 1]);
    assert(s.last() == w[w.len() - 1]);
    if is_mount_path(p) {
        assert forall|i: int| 0 <= i < s.len() - 1 implies !(#[trigger] s[i] == '/' && s[i + 1] == '/') by {
            if i < n - 1 {
                assert(p[i] == s[i] && p[i + 1] == s[i + 1]);
            } else if i == n - 1 {
                assert(s[i] == p.last());
            } else {
                assert(s[i + 1] == w[i - n]);
            }
        }
    }
    if is_mount_path(s) && n > 0 {
        assert(s[n - 1] == p[n - 1]);
        assert(!(s[n - 1] == '/' && s[n - 1 + 1] == '/'));
        assert forall|i: int| 0 <= i < n - 1 implies !(#[trigger] p[i] == '/' && p[i + 1] == '/') by {
            assert(s[i] == p[i] && s[i + 1] == p[i + 1]);
        }
        assert(p[0] == s[0]);
        assert(p.last() != '/');
    }
    assert((p + "/"@).last() == '/');
    let two = p + "/"@ + "/"@ + w;
    assert(two[n] == '/' && two[n + 1] == '/');
    assert(w[0] != '/');
}

} // verus!
