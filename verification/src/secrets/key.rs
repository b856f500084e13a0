//! What names a credential: the driver it belongs to and the connection within that driver. No
//! secret stands in any of these types.
use crate::text::{cat3, chars_of, is_white_space, white_space};
use vstd::prelude::*;

verus! {

/// A driver's identity, e.g. `mail`.
#[derive(Debug, PartialEq, Eq, Hash, PartialOrd, Ord)]
pub struct DriverId(String);

impl View for DriverId {
    type V = Seq<char>;

    closed spec fn view(&self) -> Seq<char> {
        self.0@
    }
}

impl DriverId {
    /// The driver with this name.
    #[must_use]
    pub fn new(id: &str) -> (r: DriverId)
        ensures
            r@ == id@,
    {
        DriverId(id.to_owned())
    }

    /// The driver's name.
    #[must_use]
    pub fn as_str(&self) -> (r: &str)
        ensures
            r@ == self@,
    {
        self.0.as_str()
    }
}

impl Clone for DriverId {
    fn clone(&self) -> (r: DriverId)
        ensures
            r@ == self@,
    {
        DriverId(self.0.clone())
    }
}

/// A character that no connection's name may hold: `@` and `/` part selectors and keys, and
/// white space ends a word.
pub open spec fn is_reserved(c: char) -> bool {
    c == '@' || c == '/' || is_white_space(c)
}

/// A name that a connection may have.
pub open spec fn is_connection_name(s: Seq<char>) -> bool {
    s.len() > 0 && forall|i: int| 0 <= i < s.len() ==> !is_reserved(s[i])
}

/// The index of the first reserved character of `s`, from `i` on, or the end.
pub open spec fn reserved_at(s: Seq<char>, i: int) -> int
    decreases s.len() - i,
{
    if 0 <= i < s.len() && !is_reserved(s[i]) {
        reserved_at(s, i + 1)
    } else {
        i
    }
}

/// Why a name is not accepted for a connection; `None` for one that is.
pub open spec fn name_error(s: Seq<char>) -> Option<ConnectionIdError> {
    if s.len() == 0 {
        Some(ConnectionIdError::Empty)
    } else if reserved_at(s, 0) < s.len() {
        Some(ConnectionIdError::ReservedChar(s[reserved_at(s, 0)]))
    } else {
        None
    }
}

/// A name is accepted exactly where it is not empty and holds no reserved character.
pub proof fn lemma_name_error(s: Seq<char>, i: int)
    requires
        0 <= i <= s.len(),
        forall|j: int| 0 <= j < i ==> !is_reserved(s[j]),
    ensures
        i <= reserved_at(s, i) <= s.len(),
        s.len() > 0 ==> (is_connection_name(s) <==> reserved_at(s, i) == s.len()),
        reserved_at(s, i) < s.len() ==> is_reserved(s[reserved_at(s, i)]),
        forall|j: int| 0 <= j < reserved_at(s, i) ==> !is_reserved(s[j]),
    decreases s.len() - i,
{
    if i < s.len() && !is_reserved(s[i]) {
        lemma_name_error(s, i + 1);
    }
}

/// A named connection within a driver, e.g. `work`.
#[derive(Debug, PartialEq, Eq, Hash, PartialOrd, Ord)]
pub struct ConnectionId(String);

impl View for ConnectionId {
    type V = Seq<char>;

    closed spec fn view(&self) -> Seq<char> {
        self.0@
    }
}

/// Why a name was not accepted for a connection.
#[derive(Debug, Clone, PartialEq, Eq)]
pub enum ConnectionIdError {
    /// The name is empty.
    Empty,
    /// The name holds this reserved character, and no reserved one before it.
    ReservedChar(char),
}

/// What std's `Debug` writes for a character: the character in single quotes, with its escape.
pub uninterp spec fn debug_char_quoted(c: char) -> Seq<char>;

/// A printable character of ASCII that has no escape.
pub open spec fn is_plain(c: char) -> bool {
    ' ' <= c <= '~' && c != '\'' && c != '\\'
}

/// Calls std's `Debug` for `char`, through `format!`. The result is a function of the character
/// alone; a printable character of ASCII, but for the quote and the backslash, stands as it is in
/// single quotes.
#[verifier::external_body]
fn debug_char(c: char) -> (r: String)
    ensures
        r@ == debug_char_quoted(c),
        is_plain(c) ==> r@ == seq!['\'', c, '\''],
{
    format!("{:?}", c)
}

impl ConnectionIdError {
    /// The message for people.
    pub open spec fn text(self) -> Seq<char> {
        match self {
            ConnectionIdError::Empty => "connection id must not be empty"@,
            ConnectionIdError::ReservedChar(c) => "connection id contains reserved character "@
                + debug_char_quoted(c) + " (no '@', '/', or whitespace)"@,
        }
    }

    /// The rendering for logs.
    pub open spec fn debug(self) -> Seq<char> {
        match self {
            ConnectionIdError::Empty => "Empty"@,
            ConnectionIdError::ReservedChar(c) => "ReservedChar("@ + debug_char_quoted(c) + ")"@,
        }
    }

    /// The rendering for logs.
    pub fn debug_text(&self) -> (r: String)
        ensures
            r@ == self.debug(),
            *self matches ConnectionIdError::ReservedChar(c) ==> (is_plain(c) ==> r@
                == "ReservedChar("@ + seq!['\'', c, '\''] + ")"@),
    {
        match self {
            ConnectionIdError::Empty => "Empty".to_owned(),
            ConnectionIdError::ReservedChar(c) => cat3(
                "ReservedChar(",
                debug_char(*c).as_str(),
                ")",
            ),
        }
    }

    /// The message for people.
    pub fn message(&self) -> (r: String)
        ensures
            r@ == self.text(),
            *self matches ConnectionIdError::ReservedChar(c) ==> (is_plain(c) ==> r@
                == "connection id contains reserved character "@ + seq!['\'', c, '\'']
                + " (no '@', '/', or whitespace)"@),
    {
        match self {
            ConnectionIdError::Empty => "connection id must not be empty".to_owned(),
            ConnectionIdError::ReservedChar(c) => cat3(
                "connection id contains reserved character ",
                debug_char(*c).as_str(),
                " (no '@', '/', or whitespace)",
            ),
        }
    }
}

impl ConnectionId {
    #[verifier::type_invariant]
    spec fn inv(self) -> bool {
        is_connection_name(self.0@)
    }

    /// The connection with this name.
    ///
    /// # Errors
    /// [`ConnectionIdError::Empty`] for the empty name; [`ConnectionIdError::ReservedChar`] with
    /// the first reserved character of one that holds any.
    pub fn new(id: &str) -> (r: Result<ConnectionId, ConnectionIdError>)
        ensures
            r is Ok <==> is_connection_name(id@),
            match r {
                Ok(c) => name_error(id@) is None && c@ == id@,
                Err(e) => name_error(id@) == Some(e),
            },
    {
        let v: Vec<char> = chars_of(id);
        if v.len() == 0 {
            return Err(ConnectionIdError::Empty);
        }
        proof {
            lemma_name_error(id@, 0);
        }
        let mut i: usize = 0;
        while i < v.len()
            invariant
                i <= v.len(),
                v.len() > 0,
                v@ == id@,
                reserved_at(id@, i as int) == reserved_at(id@, 0),
                is_connection_name(id@) <==> reserved_at(id@, 0) == id@.len(),
                forall|j: int| 0 <= j < i ==> !is_reserved(id@[j]),
            decreases v.len() - i,
        {
            if v[i] == '@' || v[i] == '/' || white_space(v[i]) {
                return Err(ConnectionIdError::ReservedChar(v[i]));
            }
            i = i + 1;
        }
        Ok(ConnectionId(id.to_owned()))
    }

    /// The connection's name.
    #[must_use]
    pub fn as_str(&self) -> (r: &str)
        ensures
            r@ == self@,
            is_connection_name(self@),
    {
        proof {
            use_type_invariant(self);
        }
        self.0.as_str()
    }
}

impl Clone for ConnectionId {
    fn clone(&self) -> (r: ConnectionId)
        ensures
            r@ == self@,
    {
        proof {
            use_type_invariant(self);
        }
        ConnectionId(self.0.clone())
    }
}

/// The key of one credential: a driver and a connection within it.
#[derive(Debug, PartialEq, Eq, Hash, PartialOrd, Ord)]
pub struct CredentialKey {
    /// The driver that the credential belongs to.
    pub driver: DriverId,
    /// The connection within that driver.
    pub connection: ConnectionId,
}

impl View for CredentialKey {
    type V = (Seq<char>, Seq<char>);

    open spec fn view(&self) -> (Seq<char>, Seq<char>) {
        (self.driver@, self.connection@)
    }
}

impl Clone for CredentialKey {
    fn clone(&self) -> (r: CredentialKey)
        ensures
            r@ == self@,
    {
        CredentialKey { driver: self.driver.clone(), connection: self.connection.clone() }
    }
}

/// The flat text of a key.
pub open spec fn flat_text(key: (Seq<char>, Seq<char>)) -> Seq<char> {
    key.0 + seq!['/'] + key.1
}

impl CredentialKey {
    /// The key of `connection` within `driver`.
    #[must_use]
    pub fn new(driver: DriverId, connection: ConnectionId) -> (r: CredentialKey)
        ensures
            r.driver == driver,
            r.connection == connection,
    {
        CredentialKey { driver, connection }
    }

    /// The key as one text, `driver/connection`.
    #[must_use]
    pub fn flat(&self) -> (r: String)
        ensures
            r@ == flat_text(self@),
            is_connection_name(self@.1),
    {
        let mut r: String = self.driver.as_str().to_owned();
        r.push('/');
        r.append(self.connection.as_str());
        assert(r@ =~= flat_text(self@));
        r
    }
}

/// Two keys with the same flat text are the same key, whatever their drivers are called: no
/// connection's name holds a `/`, so the last one parts the two halves.
pub proof fn law_flat_text_names_one_key(a: (Seq<char>, Seq<char>), b: (Seq<char>, Seq<char>))
    requires
        is_connection_name(a.1),
        is_connection_name(b.1),
        flat_text(a) == flat_text(b),
    ensures
        a == b,
{
    let x = flat_text(a);
    let y = flat_text(b);
    assert(x.len() == a.0.len() + 1 + a.1.len());
    assert(y.len() == b.0.len() + 1 + b.1.len());
    if a.0.len() < b.0.len() {
        assert(x[b.0.len() as int] == a.1[b.0.len() - a.0.len() - 1]);
        assert(y[b.0.len() as int] == '/');
        assert(is_reserved('/'));
    } else if b.0.len() < a.0.len() {
        assert(y[a.0.len() as int] == b.1[a.0.len() - b.0.len() - 1]);
        assert(x[a.0.len() as int] == '/');
        assert(is_reserved('/'));
    }
    assert forall|i: int| 0 <= i < a.0.len() implies a.0[i] == b.0[i] by {
        assert(x[i] == a.0[i]);
        assert(y[i] == b.0[i]);
    }
    assert forall|i: int| 0 <= i < a.1.len() implies a.1[i] == b.1[i] by {
        assert(x[a.0.len() + 1 + i] == a.1[i]);
        assert(y[b.0.len() + 1 + i] == b.1[i]);
    }
    assert(a.0 =~= b.0);
    assert(a.1 =~= b.1);
}

/// A moment with the offset at which it was written down.
#[derive(Debug, Clone, Copy, PartialEq, Eq, Structural)]
pub struct Timestamp {
    /// Nanoseconds since the start of 1970, UTC.
    pub unix_nanos: i128,
    /// The offset from UTC, in seconds.
    pub offset_seconds: i32,
}

impl Timestamp {
    /// The start of 1970, UTC.
    #[must_use]
    pub fn unix_epoch() -> (r: Timestamp)
        ensures
            r.unix_nanos == 0,
            r.offset_seconds == 0,
    {
        Timestamp { unix_nanos: 0, offset_seconds: 0 }
    }
}

/// One entry of a listing: which connection is stored, and since when.
#[derive(Debug, PartialEq, Eq)]
pub struct ConnectionRecord {
    /// The driver that the connection belongs to.
    pub driver: DriverId,
    /// The connection.
    pub connection: ConnectionId,
    /// When the credential was stored.
    pub created_at: Timestamp,
}

impl View for ConnectionRecord {
    type V = (Seq<char>, Seq<char>, Timestamp);

    open spec fn view(&self) -> (Seq<char>, Seq<char>, Timestamp) {
        (self.driver@, self.connection@, self.created_at)
    }
}

impl ConnectionRecord {
    /// A record of a connection stored at `created_at`.
    #[must_use]
    pub fn new(driver: DriverId, connection: ConnectionId, created_at: Timestamp) -> (r:
        ConnectionRecord)
        ensures
            r.driver == driver,
            r.connection == connection,
            r.created_at == created_at,
    {
        ConnectionRecord { driver, connection, created_at }
    }

    /// The key of the credential that the record describes.
    #[must_use]
    pub fn key(&self) -> (r: CredentialKey)
        ensures
            r@ == (self@.0, self@.1),
    {
        CredentialKey::new(self.driver.clone(), self.connection.clone())
    }
}

/// A name that is refused says why: the empty one that it is empty, any other with the first of its
/// characters that is a blank, a slash or an at sign. All others are names.
pub proof fn law_a_bad_name_says_why(s: Seq<char>)
    ensures
        name_error(s) is None <==> is_connection_name(s),
        name_error(s) == Some(ConnectionIdError::Empty) <==> s.len() == 0,
        name_error(s) matches Some(ConnectionIdError::ReservedChar(c)) ==> exists|k: int|
            {
                &&& 0 <= k < s.len()
                &&& #[trigger] s[k] == c
                &&& c == '@' || c == '/' || is_white_space(c)
                &&& forall|j: int|
                    0 <= j < k ==> #[trigger] s[j] != '@' && s[j] != '/' && !is_white_space(s[j])
            },
{
    lemma_name_error(s, 0);
    if s.len() > 0 {
        let k = reserved_at(s, 0);
        if k < s.len() {
            assert(s[k] == s[k]);
        }
    }
}

/// A refusal says of the empty name that it is empty, and of another which character it was refused
/// for; refusals for different characters differ only in the character.
pub proof fn law_refusals_name_the_character(c: char, d: char)
    ensures
        ConnectionIdError::Empty.debug() == "Empty"@,
        ConnectionIdError::ReservedChar(c).debug() == "ReservedChar("@ + debug_char_quoted(c) + ")"@,
        debug_char_quoted(c) == debug_char_quoted(d) <==> ConnectionIdError::ReservedChar(c).debug()
            == ConnectionIdError::ReservedChar(d).debug(),
        debug_char_quoted(c) == debug_char_quoted(d) <==> ConnectionIdError::ReservedChar(c).text()
            == ConnectionIdError::ReservedChar(d).text(),
{
    let p = "ReservedChar("@;
    let q = "connection id contains reserved character "@;
    let e = " (no '@', '/', or whitespace)"@;
    let a = debug_char_quoted(c);
    let b = debug_char_quoted(d);
    if ConnectionIdError::ReservedChar(c).debug() == ConnectionIdError::ReservedChar(d).debug() {
        let s = p + a + ")"@;
        let t = p + b + ")"@;
        assert(s.len() == t.len());
        assert(a =~= s.subrange(p.len() as int, (p.len() + a.len()) as int));
        assert(b =~= t.subrange(p.len() as int, (p.len() + b.len()) as int));
    }
    if ConnectionIdError::ReservedChar(c).text() == ConnectionIdError::ReservedChar(d).text() {
        let s = q + a + e;
        let t = q + b + e;
        assert(s.len() == t.len());
        assert(a =~= s.subrange(q.len() as int, (q.len() + a.len()) as int));
        assert(b =~= t.subrange(q.len() as int, (q.len() + b.len()) as int));
    }
}

} // verus!
