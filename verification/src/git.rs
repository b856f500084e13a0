//! Git repositories: which ones are configured, what `git` says of their refs and objects, and
//! under which names a repository's commits are found.
use crate::connections_config::{
    declaration_views, declared_for, for_driver, DeclarationView, DeclaredConnection,
};
use crate::text::{
    chars_of, folded, is_white_space, lower_case, same, stands_at, starts_with, string_of, strip_prefix,
    trim, trimmed, trimmed_end, trimmed_start,
};
use vstd::prelude::*;

verus! {

/// What a variable that names a repository begins with: `QFS_GIT_<REPO>=<path>`.
pub const GIT_ENV_PREFIX: &'static str = "QFS_GIT_";

/// What the full name of a branch begins with.
pub const BRANCH_PREFIX: &'static str = "refs/heads/";

/// A pair of texts.
pub type TextPair = (Seq<char>, Seq<char>);

/// What the pairs of a list hold.
pub open spec fn pair_views(pairs: Seq<(String, String)>) -> Seq<TextPair> {
    pairs.map_values(|p: (String, String)| (p.0@, p.1@))
}

/// The second text of the last pair that begins with `name`.
pub open spec fn last_under(pairs: Seq<TextPair>, name: Seq<char>) -> Option<Seq<char>>
    decreases pairs.len(),
{
    if pairs.len() == 0 {
        None
    } else if pairs.last().0 == name {
        Some(pairs.last().1)
    } else {
        last_under(pairs.drop_last(), name)
    }
}

// ---- objects ---------------------------------------------------------------------------------

/// The kind of a git object.
#[derive(Debug, Clone, Copy, PartialEq, Eq)]
pub enum ObjectKind {
    /// The contents of a file.
    Blob,
    /// A directory.
    Tree,
    /// A commit.
    Commit,
    /// An annotated tag.
    Tag,
}

impl ObjectKind {
    /// The word that git has for the kind.
    pub open spec fn word(self) -> Seq<char> {
        match self {
            ObjectKind::Blob => "blob"@,
            ObjectKind::Tree => "tree"@,
            ObjectKind::Commit => "commit"@,
            ObjectKind::Tag => "tag"@,
        }
    }

    /// The word that git has for the kind.
    #[must_use]
    pub fn keyword(self) -> (r: &'static str)
        ensures
            r@ == self.word(),
    {
        match self {
            ObjectKind::Blob => "blob",
            ObjectKind::Tree => "tree",
            ObjectKind::Commit => "commit",
            ObjectKind::Tag => "tag",
        }
    }
}

/// The kind that `git cat-file -t` printed, or `None` where it printed no kind that is known. The
/// white space round the word does not count.
#[must_use]
pub fn object_kind(printed: &str) -> (r: Option<ObjectKind>)
    ensures
        match r {
            Some(k) => trimmed(printed@) == k.word(),
            None => forall|k: ObjectKind| trimmed(printed@) != #[trigger] k.word(),
        },
{
    let word: String = trim(printed);
    if same(word.as_str(), "blob") {
        Some(ObjectKind::Blob)
    } else if same(word.as_str(), "tree") {
        Some(ObjectKind::Tree)
    } else if same(word.as_str(), "commit") {
        Some(ObjectKind::Commit)
    } else if same(word.as_str(), "tag") {
        Some(ObjectKind::Tag)
    } else {
        None
    }
}

/// No two kinds have the same word.
pub proof fn law_keywords_differ(a: ObjectKind, b: ObjectKind)
    requires
        a.word() == b.word(),
    ensures
        a == b,
{
    reveal_strlit("blob");
    reveal_strlit("tree");
    reveal_strlit("commit");
    reveal_strlit("tag");
    assert("blob"@[0] == 'b' && "tree"@[0] == 't');
    assert("blob"@.len() == 4 && "tree"@.len() == 4 && "commit"@.len() == 6 && "tag"@.len() == 3);
}

// ---- refs ------------------------------------------------------------------------------------

/// The lines of a text that end in a newline, and what follows the last of them.
pub open spec fn split_lines(s: Seq<char>) -> (Seq<Seq<char>>, Seq<char>)
    decreases s.len(),
{
    if s.len() == 0 {
        (Seq::empty(), Seq::empty())
    } else {
        let (done, rest) = split_lines(s.drop_last());
        if s.last() == '\n' {
            (done.push(rest), Seq::empty())
        } else {
            (done, rest.push(s.last()))
        }
    }
}

/// The lines of a text, the last one with or without a newline.
pub open spec fn lines(s: Seq<char>) -> Seq<Seq<char>> {
    split_lines(s).0.push(split_lines(s).1)
}

/// The index of the first blank at or behind `i`, or the length.
pub open spec fn blank_at(s: Seq<char>, i: int) -> int
    decreases s.len() - i,
{
    if i >= s.len() || s[i] == ' ' {
        i
    } else {
        blank_at(s, i + 1)
    }
}

/// The object id and the name on a line `<oid> <name>`; a line without a blank holds none.
pub open spec fn ref_on(line: Seq<char>) -> Option<TextPair> {
    let i = blank_at(line, 0);
    if i < line.len() {
        Some(
            (
                trimmed(line.subrange(0, i)),
                trimmed(line.subrange(i + 1, line.len() as int)),
            ),
        )
    } else {
        None
    }
}

/// The object ids and names on the lines.
pub open spec fn refs_on(list: Seq<Seq<char>>) -> Seq<TextPair>
    decreases list.len(),
{
    if list.len() == 0 {
        Seq::empty()
    } else {
        match ref_on(list.last()) {
            Some(r) => refs_on(list.drop_last()).push(r),
            None => refs_on(list.drop_last()),
        }
    }
}

fn parse_ref_line(line: &Vec<char>) -> (r: Option<(String, String)>)
    ensures
        match r {
            Some(p) => ref_on(line@) == Some((p.0@, p.1@)),
            None => ref_on(line@) is None,
        },
{
    let n: usize = line.len();
    let mut i: usize = 0;
    while i < n && line[i] != ' '
        invariant
            n == line.len(),
            i <= n,
            blank_at(line@, 0) == blank_at(line@, i as int),
        decreases n - i,
    {
        i = i + 1;
    }
    if i == n {
        return None;
    }
    let oid: String = string_of(line, 0, i);
    let name: String = string_of(line, i + 1, n);
    Some((trim(oid.as_str()), trim(name.as_str())))
}

/// Reads what `git show-ref` printed: of each line `<oid> <name>` the two texts, in order. Lines
/// of another form are passed over. Which ids are well formed [`accepted_refs`] goes by.
#[must_use]
pub fn read_refs(printed: &str) -> (r: Vec<(String, String)>)
    ensures
        pair_views(r@) == refs_on(lines(printed@)),
{
    let v: Vec<char> = chars_of(printed);
    let mut r: Vec<(String, String)> = Vec::new();
    let mut line: Vec<char> = Vec::new();
    let mut i: usize = 0;
    proof {
        assert(pair_views(r@) =~= refs_on(split_lines(v@.take(0)).0));
        assert(line@ =~= split_lines(v@.take(0)).1);
    }
    while i < v.len()
        invariant
            i <= v.len(),
            v@ == printed@,
            pair_views(r@) == refs_on(split_lines(v@.take(i as int)).0),
            line@ == split_lines(v@.take(i as int)).1,
        decreases v.len() - i,
    {
        let ghost had = pair_views(r@);
        let ghost done = split_lines(v@.take(i as int)).0;
        assert(v@.take(i + 1).drop_last() =~= v@.take(i as int));
        if v[i] == '\n' {
            assert(done.push(line@).drop_last() =~= done);
            if let Some(p) = parse_ref_line(&line) {
                r.push(p);
                assert(pair_views(r@) =~= had.push((p.0@, p.1@)));
            }
            line = Vec::new();
            assert(line@ =~= Seq::empty());
        } else {
            line.push(v[i]);
        }
        i = i + 1;
    }
    assert(v@.take(i as int) =~= v@);
    let ghost had = pair_views(r@);
    let ghost done = split_lines(v@).0;
    assert(done.push(line@).drop_last() =~= done);
    if let Some(p) = parse_ref_line(&line) {
        r.push(p);
        assert(pair_views(r@) =~= had.push((p.0@, p.1@)));
    }
    r
}

/// The refs whose ids are accepted, in order.
pub open spec fn accepted_of(refs: Seq<TextPair>, accepted: Seq<bool>) -> Seq<TextPair>
    decreases refs.len(),
{
    if refs.len() == 0 {
        Seq::empty()
    } else {
        let before = accepted_of(refs.drop_last(), accepted);
        if accepted[refs.len() - 1] {
            before.push(refs.last())
        } else {
            before
        }
    }
}

/// The refs without those whose object id is malformed; `accepted` says of each ref whether its id
/// is well formed.
#[must_use]
pub fn accepted_refs(refs: &Vec<(String, String)>, accepted: &Vec<bool>) -> (r: Vec<
    (String, String),
>)
    requires
        accepted@.len() == refs@.len(),
    ensures
        pair_views(r@) == accepted_of(pair_views(refs@), accepted@),
{
    let ghost all = pair_views(refs@);
    let mut r: Vec<(String, String)> = Vec::new();
    let mut i: usize = 0;
    assert(pair_views(r@) =~= accepted_of(all.take(0), accepted@));
    while i < refs.len()
        invariant
            i <= refs.len(),
            accepted@.len() == refs@.len(),
            all == pair_views(refs@),
            pair_views(r@) == accepted_of(all.take(i as int), accepted@),
        decreases refs.len() - i,
    {
        let ghost had = pair_views(r@);
        assert(all.take(i + 1).drop_last() =~= all.take(i as int));
        if accepted[i] {
            r.push((refs[i].0.clone(), refs[i].1.clone()));
            assert(pair_views(r@) =~= had.push(all[i as int]));
        }
        i = i + 1;
    }
    assert(all.take(i as int) =~= all);
    r
}

/// What `git show-ref` came to, by its exit code: the refs that it printed, none where it found
/// none, as in a repository without a commit, or nothing where they could not be read.
pub open spec fn refs_shown(code: Option<i32>, printed: Seq<char>) -> Option<Seq<TextPair>> {
    if code == Some(0i32) {
        Some(refs_on(lines(printed)))
    } else if code == Some(1i32) {
        Some(Seq::empty())
    } else {
        None
    }
}

/// What `git show-ref` came to, from its exit code and what it printed: `None` where the refs could
/// not be read.
#[must_use]
pub fn shown_refs(code: Option<i32>, printed: &str) -> (r: Option<Vec<(String, String)>>)
    ensures
        match r {
            Some(refs) => refs_shown(code, printed@) == Some(pair_views(refs@)),
            None => refs_shown(code, printed@) is None,
        },
{
    match code {
        Some(0) => Some(read_refs(printed)),
        Some(1) => {
            let none: Vec<(String, String)> = Vec::new();
            assert(pair_views(none@) =~= Seq::empty());
            Some(none)
        },
        _ => None,
    }
}

/// The short name of a branch: its full name without `refs/heads/`. Other refs have none.
pub open spec fn branch_of(name: Seq<char>) -> Option<Seq<char>> {
    let n = BRANCH_PREFIX@.len() as int;
    if stands_at(name, 0, BRANCH_PREFIX@) {
        Some(name.subrange(n, name.len() as int))
    } else {
        None
    }
}

/// The names that the refs, each an object id and a name, give to objects, in order: each its
/// own, and a branch its short name too.
pub open spec fn names_of(refs: Seq<TextPair>) -> Seq<TextPair>
    decreases refs.len(),
{
    if refs.len() == 0 {
        Seq::empty()
    } else {
        let (oid, name) = refs.last();
        let own = names_of(refs.drop_last()).push((name, oid));
        match branch_of(name) {
            Some(short) => own.push((short, oid)),
            None => own,
        }
    }
}

/// The names of a repository's objects: those that its refs give, and then `HEAD`.
pub open spec fn planned_names(refs: Seq<TextPair>, head: Option<Seq<char>>) -> Seq<TextPair> {
    match head {
        Some(oid) => names_of(refs).push(("HEAD"@, oid)),
        None => names_of(refs),
    }
}

/// The names under which a repository's objects are found, each with an object id; a later one
/// takes the place of an equal earlier one. `refs` holds object ids and names, `head` what the
/// repository's `HEAD` is, where it is anything.
#[must_use]
pub fn planning_repo(refs: &Vec<(String, String)>, head: Option<String>) -> (r: Vec<(String, String)>)
    ensures
        pair_views(r@) == planned_names(
            pair_views(refs@),
            match head {
                Some(h) => Some(h@),
                None => None,
            },
        ),
{
    let ghost all = pair_views(refs@);
    let mut r: Vec<(String, String)> = Vec::new();
    let mut i: usize = 0;
    assert(pair_views(r@) =~= names_of(all.take(0)));
    while i < refs.len()
        invariant
            i <= refs.len(),
            all == pair_views(refs@),
            pair_views(r@) == names_of(all.take(i as int)),
        decreases refs.len() - i,
    {
        let ghost had = pair_views(r@);
        assert(all.take(i + 1).drop_last() =~= all.take(i as int));
        let name: &str = refs[i].1.as_str();
        r.push((refs[i].1.clone(), refs[i].0.clone()));
        assert(pair_views(r@) =~= had.push((all[i as int].1, all[i as int].0)));
        let ghost own = pair_views(r@);
        if let Some(short) = strip_prefix(name, BRANCH_PREFIX) {
            let ghost text = short@;
            r.push((short, refs[i].0.clone()));
            assert(pair_views(r@) =~= own.push((text, all[i as int].0)));
        }
        i = i + 1;
    }
    assert(all.take(i as int) =~= all);
    if let Some(oid) = head {
        let ghost had = pair_views(r@);
        let ghost text = oid@;
        let word: &str = "HEAD";
        r.push((word.to_string(), oid));
        assert(pair_views(r@) =~= had.push(("HEAD"@, text)));
    }
    r
}

// ---- repositories ----------------------------------------------------------------------------

/// The repositories that declarations name: the declared name in lower case, and the path.
pub open spec fn declared_repos(conns: Seq<DeclarationView>) -> Seq<TextPair>
    decreases conns.len(),
{
    if conns.len() == 0 {
        Seq::empty()
    } else {
        let c = conns.last();
        match c.at_locator {
            Some(path) => declared_repos(conns.drop_last()).push((folded(c.name), path)),
            None => declared_repos(conns.drop_last()),
        }
    }
}

/// The repository that a variable names, if it names one.
pub open spec fn variable_repo(v: TextPair) -> Option<TextPair> {
    let n = GIT_ENV_PREFIX@.len() as int;
    if stands_at(v.0, 0, GIT_ENV_PREFIX@) && v.0.len() > n && v.1.len() > 0 {
        Some((folded(v.0.subrange(n, v.0.len() as int)), v.1))
    } else {
        None
    }
}

/// The repositories that variables name.
pub open spec fn variable_repos(vars: Seq<TextPair>) -> Seq<TextPair>
    decreases vars.len(),
{
    if vars.len() == 0 {
        Seq::empty()
    } else {
        match variable_repo(vars.last()) {
            Some(r) => variable_repos(vars.drop_last()).push(r),
            None => variable_repos(vars.drop_last()),
        }
    }
}

/// Whether some `/git` repository is configured: a variable that begins with the prefix and is
/// not empty, or a declaration that says where.
pub open spec fn configured(conns: Seq<DeclarationView>, vars: Seq<TextPair>) -> bool {
    ||| exists|i: int|
        0 <= i < vars.len() && stands_at((#[trigger] vars[i]).0, 0, GIT_ENV_PREFIX@) && vars[i].1.len() > 0
    ||| exists|i: int|
        0 <= i < for_driver(conns, "git"@).len() && (#[trigger] for_driver(
            conns,
            "git"@,
        )[i]).at_locator is Some
}

/// Whether some `/git` repository is configured, by the declarations or by the variables of the
/// environment.
#[must_use]
pub fn has_connections(conns: &Vec<DeclaredConnection>, vars: &Vec<(String, String)>) -> (r: bool)
    ensures
        r == configured(declaration_views(conns@), pair_views(vars@)),
{
    let ghost names = pair_views(vars@);
    let mut i: usize = 0;
    while i < vars.len()
        invariant
            i <= vars.len(),
            names == pair_views(vars@),
            forall|j: int|
                0 <= j < i ==> !(stands_at((#[trigger] names[j]).0, 0, GIT_ENV_PREFIX@)
                    && names[j].1.len() > 0),
        decreases vars.len() - i,
    {
        if starts_with(vars[i].0.as_str(), GIT_ENV_PREFIX) && !vars[i].1.as_str().is_empty() {
            assert(stands_at(names[i as int].0, 0, GIT_ENV_PREFIX@));
            return true;
        }
        i = i + 1;
    }
    let declared: Vec<DeclaredConnection> = declared_for(conns, "git");
    let ghost found = for_driver(declaration_views(conns@), "git"@);
    let mut k: usize = 0;
    while k < declared.len()
        invariant
            k <= declared.len(),
            declaration_views(declared@) == found,
            found == for_driver(declaration_views(conns@), "git"@),
            forall|j: int| 0 <= j < k ==> (#[trigger] found[j]).at_locator is None,
        decreases declared.len() - k,
    {
        assert(found[k as int] == declared@[k as int]@);
        if declared[k].at_locator.is_some() {
            return true;
        }
        k = k + 1;
    }
    assert(found.len() == declared.len());
    false
}

/// The configured repositories, each with the name of its path segment and the place on disk:
/// first those that are declared, then those that variables name. A later one takes the place of
/// an equally named earlier one.
#[must_use]
pub fn repositories(conns: &Vec<DeclaredConnection>, vars: &Vec<(String, String)>) -> (r: Vec<
    (String, String),
>)
    ensures
        pair_views(r@) == declared_repos(for_driver(declaration_views(conns@), "git"@))
            + variable_repos(pair_views(vars@)),
{
    let declared: Vec<DeclaredConnection> = declared_for(conns, "git");
    let ghost decls = declaration_views(declared@);
    let mut r: Vec<(String, String)> = Vec::new();
    let mut i: usize = 0;
    assert(pair_views(r@) =~= declared_repos(decls.take(0)));
    while i < declared.len()
        invariant
            i <= declared.len(),
            decls == declaration_views(declared@),
            pair_views(r@) == declared_repos(decls.take(i as int)),
        decreases declared.len() - i,
    {
        let ghost had = pair_views(r@);
        assert(decls.take(i + 1).drop_last() =~= decls.take(i as int));
        assert(decls[i as int] == declared@[i as int]@);
        if let Some(path) = &declared[i].at_locator {
            r.push((lower_case(declared[i].name.as_str()), path.clone()));
            assert(pair_views(r@) =~= had.push((folded(decls[i as int].name), path@)));
        }
        i = i + 1;
    }
    assert(decls.take(i as int) =~= decls);
    let ghost first = pair_views(r@);
    let ghost names = pair_views(vars@);
    let mut k: usize = 0;
    assert(pair_views(r@) =~= first + variable_repos(names.take(0)));
    while k < vars.len()
        invariant
            k <= vars.len(),
            names == pair_views(vars@),
            pair_views(r@) == first + variable_repos(names.take(k as int)),
        decreases vars.len() - k,
    {
        let ghost had = pair_views(r@);
        let ghost so_far = variable_repos(names.take(k as int));
        assert(names.take(k + 1).drop_last() =~= names.take(k as int));
        if let Some(repo) = strip_prefix(vars[k].0.as_str(), GIT_ENV_PREFIX) {
            if !repo.as_str().is_empty() && !vars[k].1.as_str().is_empty() {
                let found: (String, String) = (lower_case(repo.as_str()), vars[k].1.clone());
                let ghost pair = (found.0@, found.1@);
                r.push(found);
                assert(pair_views(r@) =~= had.push(pair));
                assert(first + so_far.push(pair) =~= (first + so_far).push(pair));
            }
        }
        k = k + 1;
    }
    assert(names.take(k as int) =~= names);
    r
}

/// A configured repository and what its refs came to.
#[derive(Debug, Clone, PartialEq, Eq)]
pub struct FoundRepo {
    /// The name of its path segment.
    pub name: String,
    /// The place on disk.
    pub path: String,
    /// Its refs; `None` where they could not be read.
    pub refs: Option<Vec<(String, String)>>,
}

/// Whether a repository of this name is among them.
pub open spec fn is_named(found: Seq<FoundRepo>, name: Seq<char>) -> bool {
    exists|i: int| 0 <= i < found.len() && (#[trigger] found[i]).name@ == name
}

/// The repositories that are served, in order: of equally named ones the last, and none whose refs
/// could not be read.
pub open spec fn served(found: Seq<FoundRepo>) -> Seq<FoundRepo>
    decreases found.len(),
{
    if found.len() == 0 {
        Seq::empty()
    } else {
        let later = served(found.drop_first());
        if found[0].refs is Some && !is_named(found.drop_first(), found[0].name@) {
            seq![found[0]] + later
        } else {
            later
        }
    }
}

fn named_among(found: &Vec<FoundRepo>, name: &str) -> (r: bool)
    ensures
        r == is_named(found@, name@),
{
    let mut i: usize = 0;
    while i < found.len()
        invariant
            i <= found.len(),
            forall|j: int| 0 <= j < i ==> (#[trigger] found@[j]).name@ != name@,
        decreases found.len() - i,
    {
        if same(found[i].name.as_str(), name) {
            return true;
        }
        i = i + 1;
    }
    false
}

/// The repositories that are served: a later one takes the place of an equally named earlier one,
/// and one whose refs could not be read is skipped. So a repository that is misconfigured is not
/// found, and no other stands in for it.
#[must_use]
pub fn readable_repositories(found: Vec<FoundRepo>) -> (r: Vec<FoundRepo>)
    ensures
        r@ == served(found@),
{
    let ghost given = found@;
    let mut rest: Vec<FoundRepo> = found;
    let mut r: Vec<FoundRepo> = Vec::new();
    assert(r@ + served(rest@) =~= served(given));
    while rest.len() > 0
        invariant
            r@ + served(rest@) == served(given),
        decreases rest.len(),
    {
        let ghost before = rest@;
        let ghost had = r@;
        let repo: FoundRepo = rest.remove(0);
        assert(rest@ =~= before.drop_first());
        if repo.refs.is_some() && !named_among(&rest, repo.name.as_str()) {
            r.push(repo);
            assert(r@ + served(rest@) =~= had + served(before));
        }
    }
    assert(r@ =~= served(given));
    r
}

// ---- laws ------------------------------------------------------------------------------------

/// Whether the repository at `j` is to be served: its refs could be read, and none behind it has its
/// name.
pub open spec fn stands(found: Seq<FoundRepo>, j: int) -> bool {
    found[j].refs is Some && !is_named(found.skip(j + 1), found[j].name@)
}

/// Whether this is a repository that is to be served.
pub open spec fn is_to_serve(found: Seq<FoundRepo>, repo: FoundRepo) -> bool {
    exists|i: int| 0 <= i < found.len() && #[trigger] stands(found, i) && found[i] == repo
}

/// Every repository that is served has refs that could be read, and is the last configured one of
/// its name; and each such one is served.
pub proof fn law_unreadable_repositories_are_skipped(found: Seq<FoundRepo>)
    ensures
        forall|i: int|
            0 <= i < found.len() && #[trigger] stands(found, i) ==> served(found).contains(
                found[i],
            ),
        forall|k: int|
            0 <= k < served(found).len() ==> is_to_serve(found, #[trigger] served(found)[k]),
    decreases found.len(),
{
    if found.len() > 0 {
        let rest = found.drop_first();
        let all = served(found);
        let later = served(rest);
        law_unreadable_repositories_are_skipped(rest);
        assert(rest =~= found.skip(1));
        assert forall|i: int| 1 <= i < found.len() implies stands(rest, i - 1) == stands(
            found,
            i,
        ) by {
            assert(rest.skip(i) =~= found.skip(i + 1));
        }
        let shift: int = if stands(found, 0) {
            1
        } else {
            0
        };
        assert forall|i: int| 0 <= i < found.len() && #[trigger] stands(
            found,
            i,
        ) implies all.contains(found[i]) by {
            if i == 0 {
                assert(all[0] == found[0]);
            } else {
                assert(stands(rest, i - 1));
                let k = choose|k: int| 0 <= k < later.len() && later[k] == rest[i - 1];
                assert(all[k + shift] == found[i]);
            }
        }
        assert forall|k: int| 0 <= k < all.len() implies is_to_serve(found, #[trigger] all[k]) by {
            if k < shift {
                assert(stands(found, 0));
            } else {
                assert(later[k - shift] == all[k]);
                let j = choose|j: int|
                    0 <= j < rest.len() && #[trigger] stands(rest, j) && rest[j] == all[k];
                assert(stands(found, j + 1));
                assert(found[j + 1] == all[k]);
            }
        }
    } else {
        assert(served(found).len() == 0);
    }
}

proof fn lemma_last_under_concat(a: Seq<TextPair>, b: Seq<TextPair>, name: Seq<char>)
    ensures
        last_under(a + b, name) == match last_under(b, name) {
            Some(t) => Some(t),
            None => last_under(a, name),
        },
    decreases b.len(),
{
    if b.len() == 0 {
        assert(a + b =~= a);
    } else {
        assert((a + b).drop_last() =~= a + b.drop_last());
        assert((a + b).last() == b.last());
        lemma_last_under_concat(a, b.drop_last(), name);
    }
}

/// A variable takes the place of an equally named declaration, and a declaration stands where no
/// variable has its name.
pub proof fn law_variables_override_declarations(
    conns: Seq<DeclarationView>,
    vars: Seq<TextPair>,
    name: Seq<char>,
)
    ensures
        last_under(
            declared_repos(for_driver(conns, "git"@)) + variable_repos(vars),
            name,
        ) == match last_under(variable_repos(vars), name) {
            Some(path) => Some(path),
            None => last_under(declared_repos(for_driver(conns, "git"@)), name),
        },
{
    lemma_last_under_concat(declared_repos(for_driver(conns, "git"@)), variable_repos(vars), name);
}

proof fn lemma_declared_repos_empty(conns: Seq<DeclarationView>)
    ensures
        declared_repos(conns).len() > 0 <==> exists|i: int|
            0 <= i < conns.len() && (#[trigger] conns[i]).at_locator is Some,
    decreases conns.len(),
{
    if conns.len() > 0 {
        let rest = conns.drop_last();
        lemma_declared_repos_empty(rest);
        if conns.last().at_locator is Some {
            assert(conns[conns.len() - 1].at_locator is Some);
        }
        if exists|i: int| 0 <= i < rest.len() && (#[trigger] rest[i]).at_locator is Some {
            let i = choose|i: int| 0 <= i < rest.len() && (#[trigger] rest[i]).at_locator is Some;
            assert(conns[i].at_locator is Some);
        }
        if exists|i: int| 0 <= i < conns.len() && (#[trigger] conns[i]).at_locator is Some {
            let i = choose|i: int| 0 <= i < conns.len() && (#[trigger] conns[i]).at_locator is Some;
            if i < rest.len() {
                assert(rest[i].at_locator is Some);
            }
        }
    }
}

proof fn lemma_variable_repos_empty(vars: Seq<TextPair>)
    ensures
        variable_repos(vars).len() > 0 <==> exists|i: int|
            0 <= i < vars.len() && variable_repo(#[trigger] vars[i]) is Some,
    decreases vars.len(),
{
    if vars.len() > 0 {
        let rest = vars.drop_last();
        lemma_variable_repos_empty(rest);
        if variable_repo(vars.last()) is Some {
            assert(variable_repo(vars[vars.len() - 1]) is Some);
        }
        if exists|i: int| 0 <= i < rest.len() && variable_repo(#[trigger] rest[i]) is Some {
            let i = choose|i: int| 0 <= i < rest.len() && variable_repo(#[trigger] rest[i]) is Some;
            assert(variable_repo(vars[i]) is Some);
        }
        if exists|i: int| 0 <= i < vars.len() && variable_repo(#[trigger] vars[i]) is Some {
            let i = choose|i: int| 0 <= i < vars.len() && variable_repo(#[trigger] vars[i]) is Some;
            if i < rest.len() {
                assert(variable_repo(rest[i]) is Some);
            }
        }
    }
}

/// `/git` is configured exactly where there is a repository, unless a variable is named by the
/// bare prefix: that one counts as configured, and names no repository.
pub proof fn law_configured_means_some_repository(
    conns: Seq<DeclarationView>,
    vars: Seq<TextPair>,
)
    requires
        forall|i: int| 0 <= i < vars.len() ==> (#[trigger] vars[i]).0 != GIT_ENV_PREFIX@,
    ensures
        configured(conns, vars) <==> (declared_repos(for_driver(conns, "git"@)) + variable_repos(
            vars,
        )).len() > 0,
{
    let decls = for_driver(conns, "git"@);
    lemma_declared_repos_empty(decls);
    lemma_variable_repos_empty(vars);
    assert forall|i: int|
        0 <= i < vars.len() implies (variable_repo(#[trigger] vars[i]) is Some <==> stands_at(
        vars[i].0,
        0,
        GIT_ENV_PREFIX@,
    ) && vars[i].1.len() > 0) by {
        if stands_at(vars[i].0, 0, GIT_ENV_PREFIX@) && vars[i].0.len() == GIT_ENV_PREFIX@.len() {
            assert(vars[i].0 =~= GIT_ENV_PREFIX@);
        }
    }
}

/// Whether the ref gives the name, as its own or as its short one.
pub open spec fn gives(r: TextPair, name: Seq<char>) -> bool {
    r.1 == name || branch_of(r.1) == Some(name)
}

/// A name is found at the last ref that gives it, be it as the ref's own name or as the short
/// name of a branch.
pub proof fn law_refs_are_found(refs: Seq<TextPair>, i: int, name: Seq<char>)
    requires
        0 <= i < refs.len(),
        gives(refs[i], name),
        forall|j: int| i < j < refs.len() ==> !gives(#[trigger] refs[j], name),
    ensures
        last_under(names_of(refs), name) == Some(refs[i].0),
    decreases refs.len(),
{
    let rest = refs.drop_last();
    let (oid, own) = refs.last();
    let before = names_of(rest);
    reveal_with_fuel(last_under, 3);
    assert(before.push((own, oid)).drop_last() =~= before);
    if branch_of(own) is Some {
        let short = branch_of(own)->0;
        assert(before.push((own, oid)).push((short, oid)).drop_last() =~= before.push((own, oid)));
    }
    if i < refs.len() - 1 {
        assert(!gives(refs[refs.len() - 1], name));
        assert forall|j: int| i < j < rest.len() implies !gives(#[trigger] rest[j], name) by {
            assert(!gives(refs[j], name));
        }
        law_refs_are_found(rest, i, name);
    }
}

/// Where a repository has a `HEAD`, it is found under that name, whatever its refs are called.
pub proof fn law_head_is_found(refs: Seq<TextPair>, head: Seq<char>)
    ensures
        last_under(planned_names(refs, Some(head)), "HEAD"@) == Some(head),
{
}

/// The lines of two texts with a line feed between them are those of the first and then those of
/// the second.
pub proof fn law_lines_end_at_line_feeds(a: Seq<char>, b: Seq<char>)
    ensures
        lines(a + seq!['\n'] + b) == lines(a) + lines(b),
    decreases b.len(),
{
    let s = a + seq!['\n'] + b;
    if b.len() == 0 {
        assert(s =~= a.push('\n'));
        assert(s.drop_last() =~= a);
        assert(lines(s) =~= lines(a) + lines(b));
    } else {
        law_lines_end_at_line_feeds(a, b.drop_last());
        let shorter = a + seq!['\n'] + b.drop_last();
        assert(s.drop_last() =~= shorter);
        assert(s.last() == b.last());
        let (done, rest) = split_lines(shorter);
        let (b_done, b_rest) = split_lines(b.drop_last());
        assert(lines(shorter) == lines(a) + lines(b.drop_last()));
        assert(lines(shorter).last() == rest);
        assert((lines(a) + lines(b.drop_last())).last() == b_rest);
        assert(lines(shorter).drop_last() =~= done);
        assert((lines(a) + lines(b.drop_last())).drop_last() =~= lines(a) + b_done);
        assert(lines(s) =~= lines(a) + lines(b));
    }
}

/// The references of two runs of lines, one after the other, are those of the first and then those
/// of the second.
pub proof fn law_refs_are_read_line_by_line(a: Seq<Seq<char>>, b: Seq<Seq<char>>)
    ensures
        refs_on(a + b) == refs_on(a) + refs_on(b),
    decreases b.len(),
{
    if b.len() == 0 {
        assert(a + b =~= a);
        assert(refs_on(a) + refs_on(b) =~= refs_on(a));
    } else {
        law_refs_are_read_line_by_line(a, b.drop_last());
        assert((a + b).drop_last() =~= a + b.drop_last());
        assert((a + b).last() == b.last());
        assert(refs_on(a + b) =~= refs_on(a) + refs_on(b));
    }
}

proof fn lemma_blank_at(s: Seq<char>, n: int, i: int)
    requires
        0 <= i <= n < s.len(),
        s[n] == ' ',
        forall|k: int| 0 <= k < n ==> #[trigger] s[k] != ' ',
    ensures
        blank_at(s, i) == n,
    decreases n - i,
{
    if i < n {
        lemma_blank_at(s, n, i + 1);
    }
}

/// A line reads back as it was printed: the object before the first blank, the name behind it.
pub proof fn law_a_printed_ref_reads_back(oid: Seq<char>, name: Seq<char>)
    requires
        forall|k: int| 0 <= k < oid.len() ==> !is_white_space(#[trigger] oid[k]),
        name.len() > 0,
        !is_white_space(name[0]),
        !is_white_space(name.last()),
    ensures
        ref_on(oid + " "@ + name) == Some((oid, name)),
        refs_on(seq![oid + " "@ + name]) == seq![(oid, name)],
{
    reveal_strlit(" ");
    let line = oid + " "@ + name;
    let n = oid.len() as int;
    assert forall|k: int| 0 <= k < n implies #[trigger] line[k] != ' ' by {
        assert(line[k] == oid[k]);
        assert(is_white_space(' '));
    }
    assert(line[n] == ' ');
    lemma_blank_at(line, n, 0);
    assert(line.subrange(0, n) =~= oid);
    assert(line.subrange(n + 1, line.len() as int) =~= name);
    if n > 0 {
        assert(!is_white_space(oid[0]) && !is_white_space(oid[n - 1]));
    }
    assert(trimmed_end(oid) == oid);
    assert(trimmed_start(oid) == oid);
    assert(trimmed_end(name) == name);
    assert(trimmed_start(name) == name);
    assert(seq![line].drop_last() =~= Seq::<Seq<char>>::empty());
    assert(refs_on(seq![line].drop_last()) =~= Seq::<TextPair>::empty());
    assert(refs_on(seq![line]) =~= seq![(oid, name)]);
}

/// What was printed counts only where the command succeeded; it ends with one where there is no
/// reference, and any other end is no answer.
pub proof fn law_only_success_is_read(code: Option<i32>, printed: Seq<char>, other: Seq<char>)
    ensures
        refs_shown(code, printed) is Some <==> code == Some(0i32) || code == Some(1i32),
        code == Some(1i32) ==> refs_shown(code, printed)->Some_0.len() == 0,
        code != Some(0i32) ==> refs_shown(code, printed) == refs_shown(code, other),
        refs_shown(Some(0i32), printed) == Some(refs_on(lines(printed))),
{
}

/// A variable names a repository by what stands behind the prefix, in small letters, and gives its
/// path as it is; variables whose names differ only in case name the same.
pub proof fn law_variables_name_repositories_in_any_case(v: TextPair, w: TextPair)
    requires
        variable_repo(v) is Some,
        variable_repo(w) is Some,
    ensures
        variable_repo(v)->Some_0.1 == v.1,
        variable_repo(v)->Some_0.0.len() + 8 == v.0.len(),
        folded(v.0) == folded(w.0) ==> variable_repo(v)->Some_0.0 == variable_repo(w)->Some_0.0,
{
    reveal_strlit("QFS_GIT_");
    let n = GIT_ENV_PREFIX@.len() as int;
    if folded(v.0) == folded(w.0) {
        let a = variable_repo(v)->Some_0.0;
        let b = variable_repo(w)->Some_0.0;
        assert(folded(v.0).len() == folded(w.0).len());
        assert forall|i: int| 0 <= i < a.len() implies a[i] == b[i] by {
            assert(folded(v.0)[n + i] == folded(w.0)[n + i]);
        }
        assert(a =~= b);
    }
}

/// Exactly the references whose objects were accepted stay, in their order.
pub proof fn law_accepted_refs_stay_in_order(
    refs: Seq<TextPair>,
    accepted: Seq<bool>,
    r: TextPair,
)
    requires
        accepted.len() > refs.len(),
    ensures
        accepted_of(refs.push(r), accepted) == accepted_of(refs, accepted) + if accepted[refs.len() as int] {
            seq![r]
        } else {
            Seq::empty()
        },
        (forall|i: int| 0 <= i < accepted.len() ==> accepted[i]) ==> accepted_of(refs, accepted)
            == refs,
        (forall|i: int| 0 <= i < accepted.len() ==> !accepted[i]) ==> accepted_of(
            refs,
            accepted,
        ).len() == 0,
    decreases refs.len(),
{
    let longer = refs.push(r);
    assert(longer.drop_last() =~= refs);
    assert(longer.last() == r);
    assert(accepted_of(longer, accepted) =~= accepted_of(refs, accepted) + if accepted[refs.len() as int] {
        seq![r]
    } else {
        Seq::empty()
    });
    if refs.len() > 0 {
        law_accepted_refs_stay_in_order(refs.drop_last(), accepted, refs.last());
        assert(refs.drop_last().push(refs.last()) =~= refs);
        if forall|i: int| 0 <= i < accepted.len() ==> accepted[i] {
            assert(accepted[refs.len() - 1]);
            assert(accepted_of(refs, accepted) =~= refs);
        }
        if forall|i: int| 0 <= i < accepted.len() ==> !accepted[i] {
            assert(!accepted[refs.len() - 1]);
        }
    } else {
        assert(accepted_of(refs, accepted) =~= refs);
    }
}

/// A branch is known by what stands behind the prefix of branches, and nothing else is a branch.
pub proof fn law_branches_stand_behind_their_prefix(name: Seq<char>, short: Seq<char>)
    ensures
        branch_of("refs/heads/"@ + short) == Some(short),
        branch_of(name) matches Some(s) ==> name == "refs/heads/"@ + s,
{
    let full = "refs/heads/"@ + short;
    let n = "refs/heads/"@.len() as int;
    assert(full.subrange(0, n) =~= "refs/heads/"@);
    assert(full.subrange(n, full.len() as int) =~= short);
    if let Some(s) = branch_of(name) {
        assert(name =~= name.subrange(0, n) + name.subrange(n, name.len() as int));
    }
}

} // verus!
