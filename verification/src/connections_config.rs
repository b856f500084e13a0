//! The connections that a configuration declares, in the language itself:
//!
//! ```text
//! CREATE CONNECTION orders DRIVER sqlite AT '/data/orders.db';
//! CREATE CONNECTION work DRIVER gmail SECRET 'vault:gmail/work';
//! ```
//!
//! Reading is lenient: what is not such a declaration, or names no driver, is passed over. A
//! `SECRET` is only a reference; no secret is read here.
use crate::text::{
    chars_of, clone_option, is_white_space, joined, opt_view, same, stands_at, string_of, trim,
    trimmed, views, white_space,
};
use vstd::prelude::*;

verus! {

/// The variable that names the configuration file.
pub const CONNECTIONS_ENV: &'static str = "QFS_CONNECTIONS";

/// One declared connection.
#[derive(Debug, Clone, PartialEq, Eq)]
pub struct DeclaredConnection {
    /// The connection's name: its segment in a path.
    pub name: String,
    /// The kind of driver.
    pub driver: String,
    /// Where the service is, if that is said.
    pub at_locator: Option<String>,
    /// What names the secret, if there is one.
    pub secret_ref: Option<String>,
}

/// What a [`DeclaredConnection`] holds.
#[verifier::ext_equal]
pub ghost struct DeclarationView {
    pub name: Seq<char>,
    pub driver: Seq<char>,
    pub at_locator: Option<Seq<char>>,
    pub secret_ref: Option<Seq<char>>,
}

impl View for DeclaredConnection {
    type V = DeclarationView;

    open spec fn view(&self) -> DeclarationView {
        DeclarationView {
            name: self.name@,
            driver: self.driver@,
            at_locator: opt_view(self.at_locator),
            secret_ref: opt_view(self.secret_ref),
        }
    }
}

/// What the declarations of a list hold.
pub open spec fn declaration_views(conns: Seq<DeclaredConnection>) -> Seq<DeclarationView> {
    conns.map_values(|c: DeclaredConnection| c@)
}

// ---- statements ------------------------------------------------------------------------------

/// Whether a quote stands open behind `s`.
pub open spec fn quote_open(s: Seq<char>) -> bool
    decreases s.len(),
{
    if s.len() == 0 {
        false
    } else if s.last() == '\'' {
        !quote_open(s.drop_last())
    } else {
        quote_open(s.drop_last())
    }
}

/// The statements that end within `s`, each at a `;` outside quotes, and what follows the last of
/// them.
pub open spec fn pieces(s: Seq<char>) -> (Seq<Seq<char>>, Seq<char>)
    decreases s.len(),
{
    if s.len() == 0 {
        (Seq::empty(), Seq::empty())
    } else {
        let (ended, rest) = pieces(s.drop_last());
        if s.last() == ';' && !quote_open(s.drop_last()) {
            (ended.push(rest), Seq::empty())
        } else {
            (ended, rest.push(s.last()))
        }
    }
}

/// The statements of a source. What follows the last `;` is one too, unless it is blank.
pub open spec fn statements(s: Seq<char>) -> Seq<Seq<char>> {
    let (ended, rest) = pieces(s);
    if trimmed(rest).len() == 0 {
        ended
    } else {
        ended.push(rest)
    }
}

/// The statements of a source, parted at each `;` outside quotes.
pub fn split_statements(source: &str) -> (r: Vec<String>)
    ensures
        views(r@) == statements(source@),
{
    let v: Vec<char> = chars_of(source);
    let mut r: Vec<String> = Vec::new();
    let mut cur: String = String::new();
    let mut in_quote: bool = false;
    let mut i: usize = 0;
    assert(v@.take(0) =~= Seq::empty());
    assert(views(r@) =~= Seq::empty());
    while i < v.len()
        invariant
            i <= v.len(),
            in_quote == quote_open(v@.take(i as int)),
            pieces(v@.take(i as int)) == (views(r@), cur@),
        decreases v.len() - i,
    {
        let c: char = v[i];
        assert(v@.take(i + 1).drop_last() =~= v@.take(i as int));
        if c == ';' && !in_quote {
            let ghost had = views(r@);
            let ghost done = cur@;
            r.push(cur);
            cur = String::new();
            assert(views(r@) =~= had.push(done));
        } else {
            if c == '\'' {
                in_quote = !in_quote;
            }
            cur.push(c);
        }
        i = i + 1;
    }
    assert(v@.take(i as int) =~= source@);
    if !trim(cur.as_str()).as_str().is_empty() {
        let ghost had = views(r@);
        let ghost done = cur@;
        r.push(cur);
        assert(views(r@) =~= had.push(done));
    }
    r
}

// ---- one declaration -------------------------------------------------------------------------

/// The index behind the white space at `i`.
pub open spec fn space_end(s: Seq<char>, i: int) -> int
    decreases s.len() - i,
{
    if 0 <= i < s.len() && is_white_space(s[i]) {
        space_end(s, i + 1)
    } else {
        i
    }
}

/// The index behind the word at `i`: up to white space or a quote.
pub open spec fn token_end(s: Seq<char>, i: int) -> int
    decreases s.len() - i,
{
    if 0 <= i < s.len() && !is_white_space(s[i]) && s[i] != '\'' {
        token_end(s, i + 1)
    } else {
        i
    }
}

/// The index of the first quote at or behind `i`, or the end.
pub open spec fn closing_quote(s: Seq<char>, i: int) -> int
    decreases s.len() - i,
{
    if 0 <= i < s.len() && s[i] != '\'' {
        closing_quote(s, i + 1)
    } else {
        i
    }
}

/// The word at `i`, behind white space, and the index behind it.
pub open spec fn token(s: Seq<char>, i: int) -> (Seq<char>, int) {
    let b = space_end(s, i);
    let e = token_end(s, b);
    (s.subrange(b, e), e)
}

/// The clause `keyword 'text'` at `i` and the index behind it. Without the keyword there is no
/// clause and `i` stays; with it, a quoted text must follow.
pub open spec fn clause(s: Seq<char>, i: int, keyword: Seq<char>) -> Option<
    (Option<Seq<char>>, int),
> {
    let (w, e) = token(s, i);
    if w == keyword {
        let b = space_end(s, e);
        let q = closing_quote(s, b + 1);
        if 0 <= b < s.len() && s[b] == '\'' && q < s.len() {
            Some((Some(s.subrange(b + 1, q)), q + 1))
        } else {
            None
        }
    } else {
        Some((None, i))
    }
}

/// What the statement `s` declares, if it declares a connection with a driver.
pub open spec fn declaration(s: Seq<char>) -> Option<DeclarationView> {
    let (create, a) = token(s, 0);
    let (connection, b) = token(s, a);
    let (name, c) = token(s, b);
    let (driver_word, d) = token(s, c);
    let (driver, e) = token(s, d);
    if create == "CREATE"@ && connection == "CONNECTION"@ && name.len() > 0 && driver_word
        == "DRIVER"@ && driver.len() > 0 {
        match clause(s, e, "AT"@) {
            None => None,
            Some((at_locator, f)) => match clause(s, f, "SECRET"@) {
                None => None,
                Some((secret_ref, g)) => if space_end(s, g) == s.len() {
                    Some(DeclarationView { name, driver, at_locator, secret_ref })
                } else {
                    None
                },
            },
        }
    } else {
        None
    }
}

fn skip_space(v: &Vec<char>, i: usize) -> (j: usize)
    requires
        i <= v.len(),
    ensures
        j == space_end(v@, i as int),
        i <= j <= v.len(),
{
    let mut j: usize = i;
    while j < v.len() && white_space(v[j])
        invariant
            i <= j <= v.len(),
            space_end(v@, j as int) == space_end(v@, i as int),
        decreases v.len() - j,
    {
        j = j + 1;
    }
    j
}

fn read_token(v: &Vec<char>, i: usize) -> (r: (String, usize))
    requires
        i <= v.len(),
    ensures
        token(v@, i as int) == (r.0@, r.1 as int),
        i <= r.1 <= v.len(),
{
    let b: usize = skip_space(v, i);
    let mut e: usize = b;
    while e < v.len() && !white_space(v[e]) && v[e] != '\''
        invariant
            b <= e <= v.len(),
            token_end(v@, e as int) == token_end(v@, b as int),
        decreases v.len() - e,
    {
        e = e + 1;
    }
    (string_of(v, b, e), e)
}

fn read_clause(v: &Vec<char>, i: usize, keyword: &str) -> (r: Option<(Option<String>, usize)>)
    requires
        i <= v.len(),
    ensures
        match r {
            Some((t, j)) => clause(v@, i as int, keyword@) == Some((opt_view(t), j as int)) && j
                <= v.len(),
            None => clause(v@, i as int, keyword@) is None,
        },
{
    let (w, e): (String, usize) = read_token(v, i);
    if !same(w.as_str(), keyword) {
        return Some((None, i));
    }
    let b: usize = skip_space(v, e);
    if b == v.len() || v[b] != '\'' {
        return None;
    }
    let mut q: usize = b + 1;
    while q < v.len() && v[q] != '\''
        invariant
            b < q <= v.len(),
            closing_quote(v@, q as int) == closing_quote(v@, b + 1),
        decreases v.len() - q,
    {
        q = q + 1;
    }
    if q == v.len() {
        return None;
    }
    Some((Some(string_of(v, b + 1, q)), q + 1))
}

/// What a statement declares, if it declares a connection with a driver.
pub fn parse_declaration(statement: &str) -> (r: Option<DeclaredConnection>)
    ensures
        match r {
            Some(c) => declaration(statement@) == Some(c@),
            None => declaration(statement@) is None,
        },
{
    let v: Vec<char> = chars_of(statement);
    let (create, a): (String, usize) = read_token(&v, 0);
    let (connection, b): (String, usize) = read_token(&v, a);
    let (name, c): (String, usize) = read_token(&v, b);
    let (driver_word, d): (String, usize) = read_token(&v, c);
    let (driver, e): (String, usize) = read_token(&v, d);
    if !same(create.as_str(), "CREATE") || !same(connection.as_str(), "CONNECTION")
        || name.as_str().is_empty() || !same(driver_word.as_str(), "DRIVER")
        || driver.as_str().is_empty() {
        return None;
    }
    let (at_locator, f): (Option<String>, usize) = match read_clause(&v, e, "AT") {
        Some(x) => x,
        None => return None,
    };
    let (secret_ref, g): (Option<String>, usize) = match read_clause(&v, f, "SECRET") {
        Some(x) => x,
        None => return None,
    };
    if skip_space(&v, g) != v.len() {
        return None;
    }
    Some(DeclaredConnection { name, driver, at_locator, secret_ref })
}

// ---- a whole configuration -------------------------------------------------------------------

/// What the statements declare, in order.
pub open spec fn declarations(stmts: Seq<Seq<char>>) -> Seq<DeclarationView>
    decreases stmts.len(),
{
    if stmts.len() == 0 {
        Seq::empty()
    } else {
        let before = declarations(stmts.drop_last());
        match declaration(trimmed(stmts.last())) {
            Some(d) => before.push(d),
            None => before,
        }
    }
}

/// The connections that a source declares, in order.
#[must_use]
pub fn parse_connections(source: &str) -> (r: Vec<DeclaredConnection>)
    ensures
        declaration_views(r@) == declarations(statements(source@)),
{
    let stmts: Vec<String> = split_statements(source);
    let mut r: Vec<DeclaredConnection> = Vec::new();
    let mut i: usize = 0;
    assert(declaration_views(r@) =~= Seq::empty());
    while i < stmts.len()
        invariant
            i <= stmts.len(),
            declaration_views(r@) == declarations(views(stmts@).take(i as int)),
        decreases stmts.len() - i,
    {
        proof {
            assert(views(stmts@).take(i + 1).drop_last() =~= views(stmts@).take(i as int));
            assert(views(stmts@).take(i + 1).last() == stmts@[i as int]@);
        }
        let ghost had = declaration_views(r@);
        match parse_declaration(trim(stmts[i].as_str()).as_str()) {
            Some(c) => {
                r.push(c);
                assert(declaration_views(r@) =~= had.push(c@));
            },
            None => {},
        }
        i = i + 1;
    }
    assert(views(stmts@).take(i as int) =~= views(stmts@));
    r
}

/// The declared connections of a configuration that may be absent or unreadable: of such a one
/// there are none.
#[must_use]
pub fn declared_connections(source: Option<&str>) -> (r: Vec<DeclaredConnection>)
    ensures
        declaration_views(r@) == match source {
            Some(s) => declarations(statements(s@)),
            None => Seq::empty(),
        },
{
    match source {
        Some(s) => parse_connections(s),
        None => {
            let r: Vec<DeclaredConnection> = Vec::new();
            assert(declaration_views(r@) =~= Seq::empty());
            r
        },
    }
}

/// The declarations for one kind of driver, in order.
pub open spec fn for_driver(conns: Seq<DeclarationView>, driver: Seq<char>) -> Seq<
    DeclarationView,
> {
    conns.filter(|c: DeclarationView| c.driver == driver)
}

/// The declared connections for one kind of driver.
#[must_use]
pub fn declared_for(conns: &Vec<DeclaredConnection>, driver: &str) -> (r: Vec<DeclaredConnection>)
    ensures
        declaration_views(r@) == for_driver(declaration_views(conns@), driver@),
{
    let ghost all = declaration_views(conns@);
    let ghost keeps = |c: DeclarationView| c.driver == driver@;
    let mut r: Vec<DeclaredConnection> = Vec::new();
    let mut i: usize = 0;
    proof {
        reveal(Seq::filter);
        assert(declaration_views(r@) =~= all.take(0).filter(keeps));
    }
    while i < conns.len()
        invariant
            i <= conns.len(),
            all == declaration_views(conns@),
            keeps == |c: DeclarationView| c.driver == driver@,
            declaration_views(r@) == all.take(i as int).filter(keeps),
        decreases conns.len() - i,
    {
        let ghost had = declaration_views(r@);
        proof {
            assert(all.take(i + 1).drop_last() =~= all.take(i as int));
            reveal(Seq::filter);
        }
        if same(conns[i].driver.as_str(), driver) {
            r.push(copy_declaration(&conns[i]));
            assert(declaration_views(r@) =~= had.push(all[i as int]));
        }
        i = i + 1;
    }
    assert(all.take(i as int) =~= all);
    r
}

fn copy_declaration(c: &DeclaredConnection) -> (r: DeclaredConnection)
    ensures
        r@ == c@,
{
    DeclaredConnection {
        name: c.name.clone(),
        driver: c.driver.clone(),
        at_locator: clone_option(&c.at_locator),
        secret_ref: clone_option(&c.secret_ref),
    }
}

// ---- laws ------------------------------------------------------------------------------------

/// Splitting loses nothing: the pieces with a `;` between each two are the source.
pub proof fn law_pieces_make_the_source(s: Seq<char>)
    ensures
        joined(pieces(s).0.push(pieces(s).1), seq![';']) == s,
    decreases s.len(),
{
    if s.len() == 0 {
        assert(joined(pieces(s).0.push(pieces(s).1), seq![';']) =~= s);
    } else {
        let t = s.drop_last();
        law_pieces_make_the_source(t);
        let (ended, rest) = pieces(t);
        let all = ended.push(rest);
        assert(s =~= t.push(s.last()));
        if s.last() == ';' && !quote_open(t) {
            let longer = all.push(Seq::empty());
            assert(longer.drop_last() =~= all);
            assert(joined(longer, seq![';']) =~= t + seq![';']);
        } else {
            let other = ended.push(rest.push(s.last()));
            assert(other.drop_last() =~= ended);
            assert(all.drop_last() =~= ended);
            assert(joined(other, seq![';']) =~= joined(all, seq![';']).push(s.last()));
        }
    }
}

/// No `;` within quotes parts a statement: every `;` that stands in a piece stands where a quote
/// is open.
pub proof fn law_quoted_semicolon_does_not_split(s: Seq<char>, k: int, i: int)
    requires
        0 <= k <= pieces(s).0.len(),
        0 <= i < pieces(s).0.push(pieces(s).1)[k].len(),
        pieces(s).0.push(pieces(s).1)[k][i] == ';',
    ensures
        quote_open(pieces(s).0.push(pieces(s).1)[k].take(i)),
    decreases s.len(),
{
    if s.len() > 0 {
        let t = s.drop_last();
        let (ended, rest) = pieces(t);
        lemma_rest_quote(t);
        if s.last() == ';' && !quote_open(t) {
            if k <= ended.len() {
                assert(ended.push(rest).push(Seq::empty())[k] == ended.push(rest)[k]);
                law_quoted_semicolon_does_not_split(t, k, i);
            }
        } else if k < ended.len() {
            assert(ended.push(rest)[k] == ended[k]);
            law_quoted_semicolon_does_not_split(t, k, i);
        } else if i < rest.len() {
            assert(ended.push(rest)[k] == rest);
            law_quoted_semicolon_does_not_split(t, k, i);
            assert(rest.push(s.last()).take(i) =~= rest.take(i));
        } else {
            assert(rest.push(s.last()).take(i) =~= rest);
        }
    }
}

/// A quote is open behind the last piece exactly where one is open behind the source.
proof fn lemma_rest_quote(s: Seq<char>)
    ensures
        quote_open(pieces(s).1) == quote_open(s),
    decreases s.len(),
{
    if s.len() > 0 {
        let t = s.drop_last();
        lemma_rest_quote(t);
        let rest = pieces(t).1;
        assert(rest.push(s.last()).drop_last() =~= rest);
    }
}

proof fn lemma_quote_behind(a: Seq<char>, b: Seq<char>)
    requires
        !quote_open(a),
    ensures
        quote_open(a + b) == quote_open(b),
    decreases b.len(),
{
    if b.len() == 0 {
        assert(a + b =~= a);
    } else {
        assert((a + b).drop_last() =~= a + b.drop_last());
        lemma_quote_behind(a, b.drop_last());
    }
}

proof fn lemma_pieces_behind(a: Seq<char>, b: Seq<char>)
    requires
        !quote_open(a),
        pieces(a).1.len() == 0,
    ensures
        pieces(a + b) == (pieces(a).0 + pieces(b).0, pieces(b).1),
    decreases b.len(),
{
    if b.len() == 0 {
        assert(a + b =~= a);
        assert(pieces(a).0 + pieces(b).0 =~= pieces(a).0);
        assert(pieces(a).1 =~= pieces(b).1);
    } else {
        let c = b.drop_last();
        assert((a + b).drop_last() =~= a + c);
        lemma_pieces_behind(a, c);
        lemma_quote_behind(a, c);
        let (ended, rest) = pieces(c);
        assert((pieces(a).0 + ended).push(rest) =~= pieces(a).0 + ended.push(rest));
    }
}

proof fn lemma_declarations_join(a: Seq<Seq<char>>, b: Seq<Seq<char>>)
    ensures
        declarations(a + b) == declarations(a) + declarations(b),
    decreases b.len(),
{
    if b.len() == 0 {
        assert(a + b =~= a);
        assert(declarations(a) + declarations(b) =~= declarations(a));
    } else {
        assert((a + b).drop_last() =~= a + b.drop_last());
        lemma_declarations_join(a, b.drop_last());
        assert(declarations(a + b) =~= declarations(a) + declarations(b));
    }
}

/// The declarations of two sources with a `;` between them are those of the first and then those of
/// the second, unless the first one leaves a quote open.
pub proof fn law_sources_join(a: Seq<char>, b: Seq<char>)
    requires
        !quote_open(a),
    ensures
        declarations(statements(a + seq![';'] + b)) == declarations(statements(a)) + declarations(
            statements(b),
        ),
{
    let x = a + seq![';'];
    assert(x.drop_last() =~= a);
    let (ended, rest) = pieces(a);
    lemma_pieces_behind(x, b);
    let first = ended.push(rest);
    let all = statements(x + b);
    assert(all =~= first + statements(b));
    lemma_declarations_join(first, statements(b));
    assert(first.drop_last() =~= ended);
    if trimmed(rest).len() == 0 {
        reveal_strlit("CREATE");
        let blank = trimmed(rest);
        assert(token(blank, 0).0.len() == 0);
        assert(declaration(blank) is None);
    }
}

/// Whether a text is one word: not empty, and without blanks and quotes.
pub open spec fn is_word(w: Seq<char>) -> bool {
    &&& w.len() > 0
    &&& forall|k: int| 0 <= k < w.len() ==> !is_white_space(#[trigger] w[k]) && w[k] != '\''
}

/// A clause as it is written: its keyword and its text in quotes, or nothing.
pub open spec fn clause_written(keyword: Seq<char>, text: Option<Seq<char>>) -> Seq<char> {
    match text {
        Some(t) => " "@ + keyword + " '"@ + t + "'"@,
        None => Seq::empty(),
    }
}

/// A declaration as it is written.
pub open spec fn written(d: DeclarationView) -> Seq<char> {
    "CREATE CONNECTION "@ + d.name + " DRIVER "@ + d.driver + clause_written("AT"@, d.at_locator)
        + clause_written("SECRET"@, d.secret_ref)
}

/// A word that stands at `i`, with its end, a blank or a quote behind it, is the token there.
proof fn lemma_word_ends(s: Seq<char>, i: int, w: Seq<char>, j: int)
    requires
        stands_at(s, i, w),
        is_word(w),
        0 <= j <= w.len(),
        i + w.len() == s.len() || is_white_space(s[i + w.len()]) || s[i + w.len()] == '\'',
    ensures
        token_end(s, i + j) == i + w.len(),
    decreases w.len() - j,
{
    if j < w.len() {
        assert(s.subrange(i, i + w.len())[j] == w[j]);
        assert(s[i + j] == w[j]);
        lemma_word_ends(s, i, w, j + 1);
    }
}

/// The token behind a blank at `i` is the word that stands there.
proof fn lemma_next_word(s: Seq<char>, i: int, w: Seq<char>)
    requires
        0 <= i < s.len(),
        s[i] == ' ',
        stands_at(s, i + 1, w),
        is_word(w),
        i + 1 + w.len() == s.len() || is_white_space(s[i + 1 + w.len()]) || s[i + 1 + w.len()]
            == '\'',
    ensures
        token(s, i) == (w, i + 1 + w.len()),
{
    assert(s.subrange(i + 1, i + 1 + w.len())[0] == w[0]);
    assert(s[i + 1] == w[0]);
    assert(space_end(s, i + 1) == i + 1);
    assert(space_end(s, i) == i + 1);
    lemma_word_ends(s, i + 1, w, 0);
}

/// The quote that closes a text without quotes is the one behind it.
proof fn lemma_text_closes(s: Seq<char>, i: int, t: Seq<char>, j: int)
    requires
        stands_at(s, i, t),
        i + t.len() < s.len(),
        s[i + t.len()] == '\'',
        forall|k: int| 0 <= k < t.len() ==> #[trigger] t[k] != '\'',
        0 <= j <= t.len(),
    ensures
        closing_quote(s, i + j) == i + t.len(),
    decreases t.len() - j,
{
    if j < t.len() {
        assert(s.subrange(i, i + t.len())[j] == t[j]);
        assert(s[i + j] == t[j]);
        lemma_text_closes(s, i, t, j + 1);
    }
}

/// A written clause reads back, and what follows it stands behind it.
proof fn lemma_clause_reads_back(
    before: Seq<char>,
    keyword: Seq<char>,
    text: Option<Seq<char>>,
    after: Seq<char>,
)
    requires
        is_word(keyword),
        text matches Some(t) ==> forall|k: int| 0 <= k < t.len() ==> #[trigger] t[k] != '\'',
        after.len() == 0 || after[0] == ' ',
        text is None ==> token(before + after, before.len() as int).0 != keyword,
    ensures
        clause(
            before + clause_written(keyword, text) + after,
            before.len() as int,
            keyword,
        ) == Some((text, (before.len() + clause_written(keyword, text).len()) as int)),
{
    let s = before + clause_written(keyword, text) + after;
    let i: int = before.len() as int;
    match text {
        Some(t) => {
            reveal_strlit(" ");
            reveal_strlit(" '");
            reveal_strlit("'");
            let c = clause_written(keyword, text);
            assert(s[i] == ' ');
            assert(s.subrange(i + 1, i + 1 + keyword.len()) =~= keyword);
            let e: int = i + 1 + keyword.len();
            assert(s[e] == ' ');
            assert(s[e + 1] == '\'');
            lemma_next_word(s, i, keyword);
            assert(space_end(s, e + 1) == e + 1);
            assert(space_end(s, e) == e + 1);
            assert(s.subrange(e + 2, e + 2 + t.len()) =~= t);
            assert(s[e + 2 + t.len()] == '\'');
            lemma_text_closes(s, e + 2, t, 0);
        },
        None => {
            assert(s =~= before + after);
        },
    }
}

/// The words of a declaration, up to its clauses, as they are written.
pub open spec fn words_written(name: Seq<char>, driver: Seq<char>) -> Seq<char> {
    "CREATE CONNECTION "@ + name + " DRIVER "@ + driver
}

/// The words of a declaration are its first five tokens, each in its place.
proof fn lemma_words_read_back(name: Seq<char>, driver: Seq<char>, after: Seq<char>)
    requires
        is_word(name),
        is_word(driver),
        after.len() == 0 || after[0] == ' ',
    ensures
        ({
            let s = words_written(name, driver) + after;
            &&& token(s, 0) == ("CREATE"@, 6int)
            &&& token(s, 6) == ("CONNECTION"@, 17int)
            &&& token(s, 17) == (name, (18 + name.len()) as int)
            &&& token(s, (18 + name.len()) as int) == ("DRIVER"@, (25 + name.len()) as int)
            &&& token(s, (25 + name.len()) as int) == (
                driver,
                words_written(name, driver).len() as int,
            )
        }),
{
    reveal_strlit("CREATE CONNECTION ");
    reveal_strlit(" DRIVER ");
    reveal_strlit("CREATE");
    reveal_strlit("CONNECTION");
    reveal_strlit("DRIVER");
    let s = words_written(name, driver) + after;
    let n = name.len() as int;
    let m = driver.len() as int;
    assert(words_written(name, driver).len() == 26 + n + m);
    assert(s.subrange(0, 6) =~= "CREATE"@);
    assert(is_word("CREATE"@));
    assert(s[0] == 'C' && s[6] == ' ');
    assert(space_end(s, 0) == 0);
    lemma_word_ends(s, 0, "CREATE"@, 0);
    assert(s.subrange(7, 17) =~= "CONNECTION"@);
    assert(is_word("CONNECTION"@));
    assert(s[17] == ' ');
    lemma_next_word(s, 6, "CONNECTION"@);
    assert(s.subrange(18, 18 + n) =~= name);
    assert(s[18 + n] == ' ');
    lemma_next_word(s, 17, name);
    assert(s.subrange(19 + n, 25 + n) =~= "DRIVER"@);
    assert(is_word("DRIVER"@));
    assert(s[25 + n] == ' ');
    lemma_next_word(s, 18 + n, "DRIVER"@);
    assert(s.subrange(26 + n, 26 + n + m) =~= driver);
    assert(after.len() > 0 ==> s[26 + n + m] == after[0]);
    lemma_next_word(s, 25 + n, driver);
}

/// A written secret does not begin with the keyword of a locator.
proof fn lemma_secret_is_no_locator(before: Seq<char>, secret: Option<Seq<char>>)
    ensures
        token(before + clause_written("SECRET"@, secret), before.len() as int).0 != "AT"@,
{
    reveal_strlit("AT");
    reveal_strlit("SECRET");
    reveal_strlit(" ");
    reveal_strlit(" '");
    let t = before + clause_written("SECRET"@, secret);
    let e = before.len() as int;
    match secret {
        Some(r) => {
            assert(is_word("SECRET"@));
            assert(t[e] == ' ');
            assert(t.subrange(e + 1, e + 7) =~= "SECRET"@);
            assert(t[e + 7] == ' ');
            lemma_next_word(t, e, "SECRET"@);
            assert("SECRET"@.len() != "AT"@.len());
        },
        None => {
            assert(t.len() == e);
            assert(token(t, e).0.len() == 0);
        },
    }
}

/// A declaration reads back as it was written: the name, the driver, the locator and the secret
/// are each found in their own place, whichever of the last two are there.
pub proof fn law_a_declaration_reads_back(d: DeclarationView)
    requires
        is_word(d.name),
        is_word(d.driver),
        d.at_locator matches Some(t) ==> forall|k: int| 0 <= k < t.len() ==> #[trigger] t[k] != '\'',
        d.secret_ref matches Some(t) ==> forall|k: int| 0 <= k < t.len() ==> #[trigger] t[k] != '\'',
    ensures
        declaration(written(d)) == Some(d),
{
    let s = written(d);
    let head = words_written(d.name, d.driver);
    let at = clause_written("AT"@, d.at_locator);
    let secret = clause_written("SECRET"@, d.secret_ref);
    assert(is_word("AT"@) && is_word("SECRET"@)) by {
        reveal_strlit("AT");
        reveal_strlit("SECRET");
    }
    assert((at + secret).len() == 0 || (at + secret)[0] == ' ') by {
        reveal_strlit(" ");
    }
    assert(secret.len() == 0 || secret[0] == ' ') by {
        reveal_strlit(" ");
    }
    assert(s =~= head + (at + secret));
    lemma_words_read_back(d.name, d.driver, at + secret);
    lemma_secret_is_no_locator(head, d.secret_ref);
    assert(s =~= head + at + secret);
    lemma_clause_reads_back(head, "AT"@, d.at_locator, secret);
    let all = head + at;
    let nothing = Seq::<char>::empty();
    assert(all + nothing =~= all);
    assert(token(all, all.len() as int).0.len() == 0);
    assert("SECRET"@.len() > 0);
    lemma_clause_reads_back(all, "SECRET"@, d.secret_ref, nothing);
    assert(s =~= all + secret + nothing);
    assert(space_end(s, s.len() as int) == s.len());
    assert((head + at).len() == head.len() + at.len());
    assert(s.len() == all.len() + secret.len());
}

/// Only a declaration is read as one: its first, second and fourth words are the keywords, and the
/// name and the driver are the third and the fifth, neither of them empty. What stands behind the
/// clauses makes it none.
pub proof fn law_only_declarations_are_read(s: Seq<char>)
    ensures
        declaration(s) matches Some(d) ==> {
            let connection = token(s, token(s, 0).1);
            let name = token(s, connection.1);
            let word = token(s, name.1);
            let driver = token(s, word.1);
            &&& token(s, 0).0 == "CREATE"@
            &&& connection.0 == "CONNECTION"@
            &&& word.0 == "DRIVER"@
            &&& name.0 == d.name && d.name.len() > 0
            &&& driver.0 == d.driver && d.driver.len() > 0
        },
{
}

} // verus!
