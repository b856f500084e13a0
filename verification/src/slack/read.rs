//! Reading a collection of a chat workspace: which parameters go to the service, and how its
//! answer becomes rows.
//!
//! The decoding is lenient. An answer is the bare array or an object with the array under a
//! member; a member that is missing or of another type reads as empty, zero or false.
use crate::text::same;
use crate::types::predicate::Predicate;
use crate::types::schema::TypeView;
use crate::types::value::{value_views, Row, Value, ValueView};
use vstd::prelude::*;

verus! {

/// A JSON document, as far as the decoding looks at it.
#[derive(Debug, PartialEq, Eq)]
pub enum Json {
    Null,
    Bool(bool),
    /// A number that an `i64` holds.
    Int(i64),
    /// Any other number.
    Number,
    Text(String),
    Array(Vec<Json>),
    /// Members, no two of the same name.
    Object(Vec<(String, Json)>),
}

/// Why a read failed.
#[derive(Debug, Clone, PartialEq, Eq)]
#[non_exhaustive]
pub enum SlackError {
    /// The path names no node.
    InvalidPath { path: String },
    /// The client failed.
    Client { code: String },
}

impl SlackError {
    /// The stable code of the error.
    #[must_use]
    pub fn code(&self) -> (r: &str)
        ensures
            r@ == (match *self {
                SlackError::InvalidPath { .. } => "slack_invalid_path"@,
                SlackError::Client { code } => code@,
            }),
    {
        match self {
            SlackError::InvalidPath { .. } => "slack_invalid_path",
            SlackError::Client { code } => code.as_str(),
        }
    }
}

/// The kinds of node that can be read.
#[derive(Debug, Clone, Copy, PartialEq, Eq, Structural)]
pub enum NodeKind {
    Messages,
    Replies,
    Dms,
    Reactions,
    Files,
    Users,
}

/// What of a predicate goes to the service, and what is left for the engine to filter by.
#[derive(Debug, PartialEq)]
pub struct PushdownResult {
    /// Names and values of the parameters.
    pub params: Vec<(String, String)>,
    /// What is left.
    pub residual: Option<Predicate>,
}

/// One planned read.
#[derive(Debug, PartialEq)]
#[non_exhaustive]
pub struct ReadPlan {
    /// The kind of node.
    pub kind: NodeKind,
    /// What goes to the service, and what is left.
    pub pushdown: PushdownResult,
}

/// Whether the nodes of this kind are logs of messages, in which a window of time can be asked
/// for.
pub open spec fn is_log(kind: NodeKind) -> bool {
    kind == NodeKind::Messages || kind == NodeKind::Replies || kind == NodeKind::Dms
}

impl ReadPlan {
    /// Plans a read. `pushed` is what the predicate comes to where a window of time can be asked
    /// for; for any other kind nothing is pushed and the whole predicate is left.
    #[must_use]
    pub fn list(kind: NodeKind, predicate: Option<&Predicate>, pushed: PushdownResult) -> (r:
        ReadPlan)
        ensures
            r.kind == kind,
            is_log(kind) ==> r.pushdown == pushed,
            !is_log(kind) ==> r.pushdown.params@.len() == 0 && (match predicate {
                Some(p) => r.pushdown.residual is Some && r.pushdown.residual->Some_0@ == p@,
                None => r.pushdown.residual is None,
            }),
    {
        let pushdown: PushdownResult = match kind {
            NodeKind::Messages | NodeKind::Replies | NodeKind::Dms => pushed,
            _ => {
                let residual: Option<Predicate> = match predicate {
                    Some(p) => Some(p.clone()),
                    None => None,
                };
                PushdownResult { params: Vec::new(), residual }
            },
        };
        ReadPlan { kind, pushdown }
    }

    /// The parameters that go to the service.
    #[must_use]
    pub fn params(&self) -> (r: &Vec<(String, String)>)
        ensures
            *r == self.pushdown.params,
    {
        &self.pushdown.params
    }
}

// ---- looking into the answer -----------------------------------------------------------------

/// The first member of this name.
pub open spec fn find_member(members: Seq<(String, Json)>, key: Seq<char>) -> Option<Json>
    decreases members.len(),
{
    if members.len() == 0 {
        None
    } else if members[0].0@ == key {
        Some(members[0].1)
    } else {
        find_member(members.drop_first(), key)
    }
}

/// The member of this name, where the document is an object that has one.
pub open spec fn member(v: Json, key: Seq<char>) -> Option<Json> {
    match v {
        Json::Object(members) => find_member(members@, key),
        _ => None,
    }
}

/// The elements of an array that are objects, in order; none of anything else.
pub open spec fn elements(v: Json) -> Seq<Json> {
    match v {
        Json::Array(items) => items@.filter(|x: Json| x is Object),
        _ => Seq::empty(),
    }
}

/// The text of a member, empty where it is none.
pub open spec fn text_member(v: Json, key: Seq<char>) -> Seq<char> {
    match member(v, key) {
        Some(Json::Text(s)) => s@,
        _ => Seq::empty(),
    }
}

/// The integer of a member, zero where it is none.
pub open spec fn int_member(v: Json, key: Seq<char>) -> int {
    match member(v, key) {
        Some(Json::Int(n)) => n as int,
        _ => 0,
    }
}

/// The boolean of a member, false where it is none.
pub open spec fn bool_member(v: Json, key: Seq<char>) -> bool {
    match member(v, key) {
        Some(Json::Bool(b)) => b,
        _ => false,
    }
}

/// The elements of an answer that are objects: those under the member of this name, or its own where it has no such
/// member.
pub open spec fn items_of(v: Json, key: Seq<char>) -> Seq<Json> {
    match member(v, key) {
        Some(list) => elements(list),
        None => elements(v),
    }
}

fn get<'a>(v: &'a Json, key: &str) -> (r: Option<&'a Json>)
    ensures
        match r {
            Some(m) => member(*v, key@) == Some(*m),
            None => member(*v, key@) is None,
        },
{
    let members: &'a Vec<(String, Json)> = match v {
        Json::Object(members) => members,
        _ => return None,
    };
    let mut i: usize = 0;
    assert(members@.skip(0) =~= members@);
    while i < members.len()
        invariant
            i <= members.len(),
            *v == Json::Object(*members),
            find_member(members@, key@) == find_member(members@.skip(i as int), key@),
        decreases members.len() - i,
    {
        assert(members@.skip(i as int)[0] == members@[i as int]);
        if same(members[i].0.as_str(), key) {
            return Some(&members[i].1);
        }
        assert(members@.skip(i as int).drop_first() =~= members@.skip(i + 1));
        i = i + 1;
    }
    None
}

fn text_of(v: &Json, key: &str) -> (r: String)
    ensures
        r@ == text_member(*v, key@),
{
    match get(v, key) {
        Some(Json::Text(s)) => s.clone(),
        _ => String::new(),
    }
}

fn int_of(v: &Json, key: &str) -> (r: i64)
    ensures
        r == int_member(*v, key@),
{
    match get(v, key) {
        Some(Json::Int(n)) => *n,
        _ => 0,
    }
}

fn bool_of(v: &Json, key: &str) -> (r: bool)
    ensures
        r == bool_member(*v, key@),
{
    match get(v, key) {
        Some(Json::Bool(b)) => *b,
        _ => false,
    }
}

/// The objects that an answer is read from.
fn items<'a>(v: &'a Json, key: &str) -> (r: Vec<&'a Json>)
    ensures
        r@.len() == items_of(*v, key@).len(),
        forall|i: int| 0 <= i < r@.len() ==> *(#[trigger] r@[i]) == items_of(*v, key@)[i],
{
    let list: &'a Json = match get(v, key) {
        Some(m) => m,
        None => v,
    };
    let mut r: Vec<&'a Json> = Vec::new();
    match list {
        Json::Array(a) => {
            let ghost is_object = |x: Json| x is Object;
            let mut i: usize = 0;
            proof {
                reveal(Seq::filter);
                assert(a@.take(0).filter(is_object).len() == 0);
            }
            while i < a.len()
                invariant
                    i <= a.len(),
                    is_object == |x: Json| x is Object,
                    r@.len() == a@.take(i as int).filter(is_object).len(),
                    forall|j: int|
                        0 <= j < r@.len() ==> *(#[trigger] r@[j]) == a@.take(i as int).filter(
                            is_object,
                        )[j],
                decreases a.len() - i,
            {
                proof {
                    assert(a@.take(i + 1).drop_last() =~= a@.take(i as int));
                    reveal(Seq::filter);
                }
                match &a[i] {
                    Json::Object(_) => {
                        r.push(&a[i]);
                    },
                    _ => {},
                }
                i = i + 1;
            }
            assert(a@.take(i as int) =~= a@);
        },
        _ => {},
    }
    r
}

// ---- rows ------------------------------------------------------------------------------------

/// A message.
#[derive(Debug, Clone, PartialEq, Eq)]
pub struct MessageDto {
    pub ts: String,
    pub user: String,
    pub text: String,
    pub thread_ts: String,
    pub subtype: String,
}

/// A reaction to a message.
#[derive(Debug, Clone, PartialEq, Eq)]
pub struct ReactionDto {
    pub name: String,
    pub count: i64,
}

/// A file.
#[derive(Debug, Clone, PartialEq, Eq)]
pub struct FileDto {
    pub id: String,
    pub name: String,
    pub mimetype: String,
    pub size: i64,
    pub user: String,
}

/// A user.
#[derive(Debug, Clone, PartialEq, Eq)]
pub struct UserDto {
    pub id: String,
    pub name: String,
    pub real_name: String,
    pub is_bot: bool,
    pub deleted: bool,
}

/// The message is the one that the element describes.
pub open spec fn message_is(m: MessageDto, v: Json) -> bool {
    &&& m.ts@ == text_member(v, "ts"@)
    &&& m.user@ == text_member(v, "user"@)
    &&& m.text@ == text_member(v, "text"@)
    &&& m.thread_ts@ == text_member(v, "thread_ts"@)
    &&& m.subtype@ == text_member(v, "subtype"@)
}

/// The reaction is the one that the element describes.
pub open spec fn reaction_is(m: ReactionDto, v: Json) -> bool {
    &&& m.name@ == text_member(v, "name"@)
    &&& m.count == int_member(v, "count"@)
}

/// The file is the one that the element describes.
pub open spec fn file_is(m: FileDto, v: Json) -> bool {
    &&& m.id@ == text_member(v, "id"@)
    &&& m.name@ == text_member(v, "name"@)
    &&& m.mimetype@ == text_member(v, "mimetype"@)
    &&& m.size == int_member(v, "size"@)
    &&& m.user@ == text_member(v, "user"@)
}

/// The user is the one that the element describes.
pub open spec fn user_is(m: UserDto, v: Json) -> bool {
    &&& m.id@ == text_member(v, "id"@)
    &&& m.name@ == text_member(v, "name"@)
    &&& m.real_name@ == text_member(v, "real_name"@)
    &&& m.is_bot == bool_member(v, "is_bot"@)
    &&& m.deleted == bool_member(v, "deleted"@)
}

/// The messages of an answer.
#[must_use]
pub fn decode_messages(value: &Json) -> (r: Vec<MessageDto>)
    ensures
        r@.len() == items_of(*value, "messages"@).len(),
        forall|i: int|
            0 <= i < r@.len() ==> message_is(#[trigger] r@[i], items_of(*value, "messages"@)[i]),
{
    let mut r: Vec<MessageDto> = Vec::new();
    let list: Vec<&Json> = items(value, "messages");
    let mut i: usize = 0;
    while i < list.len()
        invariant
            i <= list.len(),
            r@.len() == i,
            forall|j: int| 0 <= j < i ==> message_is(#[trigger] r@[j], *list@[j]),
        decreases list.len() - i,
    {
        let v: &Json = list[i];
        r.push(
            MessageDto {
                ts: text_of(v, "ts"),
                user: text_of(v, "user"),
                text: text_of(v, "text"),
                thread_ts: text_of(v, "thread_ts"),
                subtype: text_of(v, "subtype"),
            },
        );
        i = i + 1;
    }
    r
}

/// The reactions of an answer.
#[must_use]
pub fn decode_reactions(value: &Json) -> (r: Vec<ReactionDto>)
    ensures
        r@.len() == items_of(*value, "reactions"@).len(),
        forall|i: int|
            0 <= i < r@.len() ==> reaction_is(#[trigger] r@[i], items_of(*value, "reactions"@)[i]),
{
    let mut r: Vec<ReactionDto> = Vec::new();
    let list: Vec<&Json> = items(value, "reactions");
    let mut i: usize = 0;
    while i < list.len()
        invariant
            i <= list.len(),
            r@.len() == i,
            forall|j: int| 0 <= j < i ==> reaction_is(#[trigger] r@[j], *list@[j]),
        decreases list.len() - i,
    {
        let v: &Json = list[i];
        r.push(ReactionDto { name: text_of(v, "name"), count: int_of(v, "count") });
        i = i + 1;
    }
    r
}

/// The files of an answer.
#[must_use]
pub fn decode_files(value: &Json) -> (r: Vec<FileDto>)
    ensures
        r@.len() == items_of(*value, "files"@).len(),
        forall|i: int|
            0 <= i < r@.len() ==> file_is(#[trigger] r@[i], items_of(*value, "files"@)[i]),
{
    let mut r: Vec<FileDto> = Vec::new();
    let list: Vec<&Json> = items(value, "files");
    let mut i: usize = 0;
    while i < list.len()
        invariant
            i <= list.len(),
            r@.len() == i,
            forall|j: int| 0 <= j < i ==> file_is(#[trigger] r@[j], *list@[j]),
        decreases list.len() - i,
    {
        let v: &Json = list[i];
        r.push(
            FileDto {
                id: text_of(v, "id"),
                name: text_of(v, "name"),
                mimetype: text_of(v, "mimetype"),
                size: int_of(v, "size"),
                user: text_of(v, "user"),
            },
        );
        i = i + 1;
    }
    r
}

/// The users of an answer.
#[must_use]
pub fn decode_users(value: &Json) -> (r: Vec<UserDto>)
    ensures
        r@.len() == items_of(*value, "members"@).len(),
        forall|i: int|
            0 <= i < r@.len() ==> user_is(#[trigger] r@[i], items_of(*value, "members"@)[i]),
{
    let mut r: Vec<UserDto> = Vec::new();
    let list: Vec<&Json> = items(value, "members");
    let mut i: usize = 0;
    while i < list.len()
        invariant
            i <= list.len(),
            r@.len() == i,
            forall|j: int| 0 <= j < i ==> user_is(#[trigger] r@[j], *list@[j]),
        decreases list.len() - i,
    {
        let v: &Json = list[i];
        r.push(
            UserDto {
                id: text_of(v, "id"),
                name: text_of(v, "name"),
                real_name: text_of(v, "real_name"),
                is_bot: bool_of(v, "is_bot"),
                deleted: bool_of(v, "deleted"),
            },
        );
        i = i + 1;
    }
    r
}

/// The member that holds the array in an answer for this kind of node.
pub open spec fn list_member(kind: NodeKind) -> Seq<char> {
    match kind {
        NodeKind::Messages | NodeKind::Replies | NodeKind::Dms => "messages"@,
        NodeKind::Reactions => "reactions"@,
        NodeKind::Files => "files"@,
        NodeKind::Users => "members"@,
    }
}

/// The row for one element of an answer: its members in the order of the columns.
pub open spec fn row_view(kind: NodeKind, v: Json) -> Seq<ValueView> {
    match kind {
        NodeKind::Messages | NodeKind::Replies | NodeKind::Dms => seq![
            ValueView::Text(text_member(v, "ts"@)),
            ValueView::Text(text_member(v, "user"@)),
            ValueView::Text(text_member(v, "text"@)),
            ValueView::Text(text_member(v, "thread_ts"@)),
            ValueView::Text(text_member(v, "subtype"@)),
        ],
        NodeKind::Reactions => seq![
            ValueView::Text(text_member(v, "name"@)),
            ValueView::Int(int_member(v, "count"@)),
        ],
        NodeKind::Files => seq![
            ValueView::Text(text_member(v, "id"@)),
            ValueView::Text(text_member(v, "name"@)),
            ValueView::Text(text_member(v, "mimetype"@)),
            ValueView::Int(int_member(v, "size"@)),
            ValueView::Text(text_member(v, "user"@)),
        ],
        NodeKind::Users => seq![
            ValueView::Text(text_member(v, "id"@)),
            ValueView::Text(text_member(v, "name"@)),
            ValueView::Text(text_member(v, "real_name"@)),
            ValueView::Bool(bool_member(v, "is_bot"@)),
            ValueView::Bool(bool_member(v, "deleted"@)),
        ],
    }
}

/// The rows are those that an answer for this kind of node describes, in order.
pub open spec fn rows_are(rows: Seq<Row>, kind: NodeKind, v: Json) -> bool {
    &&& rows.len() == items_of(v, list_member(kind)).len()
    &&& forall|i: int|
        0 <= i < rows.len() ==> (#[trigger] rows[i])@ == row_view(
            kind,
            items_of(v, list_member(kind))[i],
        )
}

/// What a list of up to five values denotes.
proof fn lemma_few_values(values: Seq<Value>)
    requires
        values.len() <= 5,
    ensures
        value_views(values) == Seq::new(values.len(), |i: int| values[i]@),
{
    crate::types::value::lemma_value_views(values);
    assert(value_views(values) =~= Seq::new(values.len(), |i: int| values[i]@));
}

fn message_row(m: &MessageDto) -> (r: Row)
    ensures
        r@ == seq![
            ValueView::Text(m.ts@),
            ValueView::Text(m.user@),
            ValueView::Text(m.text@),
            ValueView::Text(m.thread_ts@),
            ValueView::Text(m.subtype@),
        ],
{
    let mut v: Vec<Value> = Vec::new();
    v.push(Value::Text(m.ts.clone()));
    v.push(Value::Text(m.user.clone()));
    v.push(Value::Text(m.text.clone()));
    v.push(Value::Text(m.thread_ts.clone()));
    v.push(Value::Text(m.subtype.clone()));
    let r: Row = Row::new(v);
    proof {
        lemma_few_values(r.values@);
        assert(r@ =~= seq![
            ValueView::Text(m.ts@),
            ValueView::Text(m.user@),
            ValueView::Text(m.text@),
            ValueView::Text(m.thread_ts@),
            ValueView::Text(m.subtype@),
        ]);
    }
    r
}

fn reaction_row(m: &ReactionDto) -> (r: Row)
    ensures
        r@ == seq![ValueView::Text(m.name@), ValueView::Int(m.count as int)],
{
    let mut v: Vec<Value> = Vec::new();
    v.push(Value::Text(m.name.clone()));
    v.push(Value::Int(m.count));
    let r: Row = Row::new(v);
    proof {
        lemma_few_values(r.values@);
        assert(r@ =~= seq![ValueView::Text(m.name@), ValueView::Int(m.count as int)]);
    }
    r
}

fn file_row(m: &FileDto) -> (r: Row)
    ensures
        r@ == seq![
            ValueView::Text(m.id@),
            ValueView::Text(m.name@),
            ValueView::Text(m.mimetype@),
            ValueView::Int(m.size as int),
            ValueView::Text(m.user@),
        ],
{
    let mut v: Vec<Value> = Vec::new();
    v.push(Value::Text(m.id.clone()));
    v.push(Value::Text(m.name.clone()));
    v.push(Value::Text(m.mimetype.clone()));
    v.push(Value::Int(m.size));
    v.push(Value::Text(m.user.clone()));
    let r: Row = Row::new(v);
    proof {
        lemma_few_values(r.values@);
        assert(r@ =~= seq![
            ValueView::Text(m.id@),
            ValueView::Text(m.name@),
            ValueView::Text(m.mimetype@),
            ValueView::Int(m.size as int),
            ValueView::Text(m.user@),
        ]);
    }
    r
}

fn user_row(m: &UserDto) -> (r: Row)
    ensures
        r@ == seq![
            ValueView::Text(m.id@),
            ValueView::Text(m.name@),
            ValueView::Text(m.real_name@),
            ValueView::Bool(m.is_bot),
            ValueView::Bool(m.deleted),
        ],
{
    let mut v: Vec<Value> = Vec::new();
    v.push(Value::Text(m.id.clone()));
    v.push(Value::Text(m.name.clone()));
    v.push(Value::Text(m.real_name.clone()));
    v.push(Value::Bool(m.is_bot));
    v.push(Value::Bool(m.deleted));
    let r: Row = Row::new(v);
    proof {
        lemma_few_values(r.values@);
        assert(r@ =~= seq![
            ValueView::Text(m.id@),
            ValueView::Text(m.name@),
            ValueView::Text(m.real_name@),
            ValueView::Bool(m.is_bot),
            ValueView::Bool(m.deleted),
        ]);
    }
    r
}

/// The rows that an answer for this kind of node describes.
///
/// # Errors
/// None today: an element that is no object is skipped.
pub fn decode_list(kind: NodeKind, value: &Json) -> (r: Result<Vec<Row>, SlackError>)
    ensures
        r is Ok,
        rows_are(r->Ok_0@, kind, *value),
{
    let mut rows: Vec<Row> = Vec::new();
    let ghost all = items_of(*value, list_member(kind));
    match kind {
        NodeKind::Messages | NodeKind::Replies | NodeKind::Dms => {
            let list: Vec<MessageDto> = decode_messages(value);
            let mut i: usize = 0;
            while i < list.len()
                invariant
                    i <= list.len() == all.len(),
                    is_log(kind),
                    forall|j: int| 0 <= j < list@.len() ==> message_is(#[trigger] list@[j], all[j]),
                    rows@.len() == i,
                    forall|j: int|
                        0 <= j < i ==> (#[trigger] rows@[j])@ == row_view(kind, all[j]),
                decreases list.len() - i,
            {
                assert(message_is(list@[i as int], all[i as int]));
                rows.push(message_row(&list[i]));
                i = i + 1;
            }
        },
        NodeKind::Reactions => {
            let list: Vec<ReactionDto> = decode_reactions(value);
            let mut i: usize = 0;
            while i < list.len()
                invariant
                    i <= list.len() == all.len(),
                    kind == NodeKind::Reactions,
                    forall|j: int| 0 <= j < list@.len() ==> reaction_is(#[trigger] list@[j], all[j]),
                    rows@.len() == i,
                    forall|j: int|
                        0 <= j < i ==> (#[trigger] rows@[j])@ == row_view(kind, all[j]),
                decreases list.len() - i,
            {
                assert(reaction_is(list@[i as int], all[i as int]));
                rows.push(reaction_row(&list[i]));
                i = i + 1;
            }
        },
        NodeKind::Files => {
            let list: Vec<FileDto> = decode_files(value);
            let mut i: usize = 0;
            while i < list.len()
                invariant
                    i <= list.len() == all.len(),
                    kind == NodeKind::Files,
                    forall|j: int| 0 <= j < list@.len() ==> file_is(#[trigger] list@[j], all[j]),
                    rows@.len() == i,
                    forall|j: int|
                        0 <= j < i ==> (#[trigger] rows@[j])@ == row_view(kind, all[j]),
                decreases list.len() - i,
            {
                assert(file_is(list@[i as int], all[i as int]));
                rows.push(file_row(&list[i]));
                i = i + 1;
            }
        },
        NodeKind::Users => {
            let list: Vec<UserDto> = decode_users(value);
            let mut i: usize = 0;
            while i < list.len()
                invariant
                    i <= list.len() == all.len(),
                    kind == NodeKind::Users,
                    forall|j: int| 0 <= j < list@.len() ==> user_is(#[trigger] list@[j], all[j]),
                    rows@.len() == i,
                    forall|j: int|
                        0 <= j < i ==> (#[trigger] rows@[j])@ == row_view(kind, all[j]),
                decreases list.len() - i,
            {
                assert(user_is(list@[i as int], all[i as int]));
                rows.push(user_row(&list[i]));
                i = i + 1;
            }
        },
    }
    Ok(rows)
}

// ---- the whole read --------------------------------------------------------------------------

/// What asks the service.
pub trait SlackClient {
    /// The answer to a listing with these parameters, its pages put together.
    fn list(&self, kind: NodeKind, params: &Vec<(String, String)>) -> Result<Json, SlackError>;
}

/// `r` is what reading the nodes of this kind with these parameters comes to: the rows that the
/// client's answer describes, or its error.
pub open spec fn list_read<C: SlackClient>(
    client: C,
    kind: NodeKind,
    params: Vec<(String, String)>,
    r: Result<Vec<Row>, SlackError>,
) -> bool {
    exists|answer: Result<Json, SlackError>| #[trigger]
        call_ensures(C::list, (&client, kind, &params), answer) && match answer {
            Ok(v) => r is Ok && rows_are(r->Ok_0@, kind, v),
            Err(e) => r == Err::<Vec<Row>, SlackError>(e),
        }
}

/// Reads the rows of a node. `address` is what parsing the path gave, `pushed` what the predicate
/// comes to where a window of time can be asked for. A path that is refused asks nothing of the
/// client.
///
/// # Errors
/// The error of parsing the path, or the client's.
pub fn read_rows<C: SlackClient>(
    client: &C,
    address: Result<NodeKind, SlackError>,
    predicate: Option<&Predicate>,
    pushed: PushdownResult,
) -> (r: Result<Vec<Row>, SlackError>)
    ensures
        match address {
            Err(e) => r == Err::<Vec<Row>, SlackError>(e),
            Ok(kind) => exists|params: Vec<(String, String)>| #[trigger]
                list_read(*client, kind, params, r) && (if is_log(kind) {
                    params == pushed.params
                } else {
                    params@.len() == 0
                }),
        },
{
    let kind: NodeKind = match address {
        Ok(kind) => kind,
        Err(e) => return Err(e),
    };
    let plan: ReadPlan = ReadPlan::list(kind, predicate, pushed);
    let answer: Result<Json, SlackError> = client.list(kind, plan.params());
    let ghost given = answer;
    assert(call_ensures(C::list, (client, kind, &plan.pushdown.params), given));
    let r: Result<Vec<Row>, SlackError> = match answer {
        Ok(v) => decode_list(kind, &v),
        Err(e) => Err(e),
    };
    assert(list_read(*client, kind, plan.pushdown.params, r));
    r
}

// ---- laws ------------------------------------------------------------------------------------

/// The columns of the rows for a kind of node: the name and the type of each, in order.
pub open spec fn columns_of(kind: NodeKind) -> Seq<(Seq<char>, TypeView)> {
    match kind {
        NodeKind::Messages | NodeKind::Replies | NodeKind::Dms => seq![
            ("ts"@, TypeView::Text),
            ("user"@, TypeView::Text),
            ("text"@, TypeView::Text),
            ("thread_ts"@, TypeView::Text),
            ("subtype"@, TypeView::Text),
        ],
        NodeKind::Reactions => seq![("name"@, TypeView::Text), ("count"@, TypeView::Int)],
        NodeKind::Files => seq![
            ("id"@, TypeView::Text),
            ("name"@, TypeView::Text),
            ("mimetype"@, TypeView::Text),
            ("size"@, TypeView::Int),
            ("user"@, TypeView::Text),
        ],
        NodeKind::Users => seq![
            ("id"@, TypeView::Text),
            ("name"@, TypeView::Text),
            ("real_name"@, TypeView::Text),
            ("is_bot"@, TypeView::Bool),
            ("deleted"@, TypeView::Bool),
        ],
    }
}

/// Whether a member of an element is this value of a column of this type: it is where it has the
/// type, and a member that has not, or is missing, is empty, zero or false.
pub open spec fn is_cell(found: Option<Json>, ty: TypeView, cell: ValueView) -> bool {
    match ty {
        TypeView::Text => match found {
            Some(Json::Text(s)) => cell == ValueView::Text(s@),
            _ => cell is Text && cell->Text_0.len() == 0,
        },
        TypeView::Int => match found {
            Some(Json::Int(n)) => cell == ValueView::Int(n as int),
            _ => cell == ValueView::Int(0),
        },
        TypeView::Bool => match found {
            Some(Json::Bool(b)) => cell == ValueView::Bool(b),
            _ => cell == ValueView::Bool(false),
        },
        _ => false,
    }
}

/// Each column of a row holds the member of the element that has the column's own name, whatever
/// the kind of node.
pub proof fn law_columns_hold_the_members_of_their_name(kind: NodeKind, v: Json, i: int)
    requires
        0 <= i < columns_of(kind).len(),
    ensures
        row_view(kind, v).len() == columns_of(kind).len(),
        is_cell(member(v, columns_of(kind)[i].0), columns_of(kind)[i].1, row_view(kind, v)[i]),
{
}

/// The fields of what is decoded are the columns of its row, in order.
pub proof fn law_decoded_fields_are_the_columns(
    v: Json,
    m: MessageDto,
    f: FileDto,
    u: UserDto,
    x: ReactionDto,
)
    requires
        message_is(m, v),
        file_is(f, v),
        user_is(u, v),
        reaction_is(x, v),
    ensures
        row_view(NodeKind::Messages, v) == seq![
            ValueView::Text(m.ts@),
            ValueView::Text(m.user@),
            ValueView::Text(m.text@),
            ValueView::Text(m.thread_ts@),
            ValueView::Text(m.subtype@),
        ],
        row_view(NodeKind::Files, v) == seq![
            ValueView::Text(f.id@),
            ValueView::Text(f.name@),
            ValueView::Text(f.mimetype@),
            ValueView::Int(f.size as int),
            ValueView::Text(f.user@),
        ],
        row_view(NodeKind::Users, v) == seq![
            ValueView::Text(u.id@),
            ValueView::Text(u.name@),
            ValueView::Text(u.real_name@),
            ValueView::Bool(u.is_bot),
            ValueView::Bool(u.deleted),
        ],
        row_view(NodeKind::Reactions, v) == seq![
            ValueView::Text(x.name@),
            ValueView::Int(x.count as int),
        ],
{
}

proof fn lemma_find_member(members: Seq<(String, Json)>, key: Seq<char>, i: int)
    requires
        0 <= i < members.len(),
        members[i].0@ == key,
        forall|j: int| 0 <= j < i ==> (#[trigger] members[j]).0@ != key,
    ensures
        find_member(members, key) == Some(members[i].1),
    decreases i,
{
    if i > 0 {
        assert(members[0].0@ != key);
        let rest = members.drop_first();
        assert forall|j: int| 0 <= j < i - 1 implies (#[trigger] rest[j]).0@ != key by {
            assert(members[j + 1].0@ != key);
        }
        lemma_find_member(rest, key, i - 1);
    }
}

proof fn lemma_no_member(members: Seq<(String, Json)>, key: Seq<char>)
    requires
        forall|j: int| 0 <= j < members.len() ==> (#[trigger] members[j]).0@ != key,
    ensures
        find_member(members, key) is None,
    decreases members.len(),
{
    if members.len() > 0 {
        assert(members[0].0@ != key);
        let rest = members.drop_first();
        assert forall|j: int| 0 <= j < rest.len() implies (#[trigger] rest[j]).0@ != key by {
            assert(members[j + 1].0@ != key);
        }
        lemma_no_member(rest, key);
    }
}

/// The member of a name is the first that has it; an object in which none has it has none, and what
/// is no object has none at all.
pub proof fn law_members_are_found_by_name(members: Vec<(String, Json)>, key: Seq<char>, i: int)
    ensures
        0 <= i < members@.len() && members@[i].0@ == key && (forall|j: int|
            0 <= j < i ==> (#[trigger] members@[j]).0@ != key) ==> member(
            Json::Object(members),
            key,
        ) == Some(members@[i].1),
        (forall|j: int| 0 <= j < members@.len() ==> (#[trigger] members@[j]).0@ != key) ==> member(
            Json::Object(members),
            key,
        ) is None,
{
    if 0 <= i < members@.len() && members@[i].0@ == key && (forall|j: int|
        0 <= j < i ==> (#[trigger] members@[j]).0@ != key) {
        lemma_find_member(members@, key, i);
    }
    if forall|j: int| 0 <= j < members@.len() ==> (#[trigger] members@[j]).0@ != key {
        lemma_no_member(members@, key);
    }
}

/// The name under which the service's answer for a kind of node holds its list.
pub open spec fn answers_under(kind: NodeKind, name: Seq<char>) -> bool {
    match kind {
        NodeKind::Messages => name == "messages"@,
        NodeKind::Replies => name == "messages"@,
        NodeKind::Dms => name == "messages"@,
        NodeKind::Reactions => name == "reactions"@,
        NodeKind::Files => name == "files"@,
        NodeKind::Users => name == "members"@,
    }
}

/// An answer reads alike as the bare list and as an object that holds the list under the service's
/// name for it: in both each object of the list is one row, in order, and nothing else is.
pub proof fn law_bare_and_wrapped_answers_read_alike(
    kind: NodeKind,
    members: Vec<(String, Json)>,
    list: Vec<Json>,
    rows: Seq<Row>,
)
    requires
        members@.len() == 1,
        answers_under(kind, members@[0].0@),
        members@[0].1 == Json::Array(list),
    ensures
        rows_are(rows, kind, Json::Object(members)) <==> rows_are(rows, kind, Json::Array(list)),
        rows_are(rows, kind, Json::Array(list)) ==> rows.len() == list@.filter(
            |x: Json| x is Object,
        ).len(),
{
    let v = Json::Object(members);
    assert(list_member(kind) == members@[0].0@);
    assert(member(v, list_member(kind)) == Some(Json::Array(list)));
    assert(items_of(v, list_member(kind)) == items_of(Json::Array(list), list_member(kind)));
}

/// In a list of objects every one is a row, each in its place.
pub proof fn law_every_object_is_a_row(kind: NodeKind, list: Vec<Json>, rows: Seq<Row>)
    requires
        forall|i: int| 0 <= i < list@.len() ==> #[trigger] list@[i] is Object,
        rows_are(rows, kind, Json::Array(list)),
    ensures
        rows.len() == list@.len(),
        forall|i: int| 0 <= i < rows.len() ==> (#[trigger] rows[i])@ == row_view(kind, list@[i]),
{
    lemma_all_kept(list@);
}

proof fn lemma_all_kept(list: Seq<Json>)
    requires
        forall|i: int| 0 <= i < list.len() ==> #[trigger] list[i] is Object,
    ensures
        list.filter(|x: Json| x is Object) == list,
    decreases list.len(),
{
    reveal(Seq::filter);
    if list.len() > 0 {
        lemma_all_kept(list.drop_last());
        assert(list.drop_last().push(list.last()) =~= list);
    }
}

/// A window of time is asked for exactly where the rows carry a time; elsewhere the whole predicate
/// is left, and nothing goes to the service.
pub proof fn law_windows_are_asked_where_rows_have_a_time(
    kind: NodeKind,
    predicate: Option<&Predicate>,
    pushed: PushdownResult,
    plan: ReadPlan,
)
    requires
        call_ensures(ReadPlan::list, (kind, predicate, pushed), plan),
    ensures
        plan.kind == kind,
        columns_of(kind)[0].0 == "ts"@ ==> plan.pushdown == pushed,
        columns_of(kind)[0].0 != "ts"@ ==> plan.pushdown.params@.len() == 0 && (predicate is Some
            <==> plan.pushdown.residual is Some) && (predicate is Some
            ==> plan.pushdown.residual->Some_0@ == predicate->Some_0@),
{
    reveal_strlit("ts");
    reveal_strlit("name");
    reveal_strlit("id");
    assert("ts"@[0] == 't');
    assert("name"@[0] == 'n');
    assert("id"@[0] == 'i');
}

/// Decoding fills each field from the member of its name: a message's author is its `user`, its
/// thread its `thread_ts`, and so on for files, users and reactions; a row shows them in the order
/// of the columns.
pub proof fn law_fields_are_the_members_of_their_name(
    value: Json,
    i: int,
    messages: Vec<MessageDto>,
    files: Vec<FileDto>,
    users: Vec<UserDto>,
    reactions: Vec<ReactionDto>,
)
    requires
        call_ensures(decode_messages, (&value,), messages),
        call_ensures(decode_files, (&value,), files),
        call_ensures(decode_users, (&value,), users),
        call_ensures(decode_reactions, (&value,), reactions),
        0 <= i,
    ensures
        i < messages@.len() ==> ({
            let v = items_of(value, "messages"@)[i];
            let m = messages@[i];
            &&& is_cell(member(v, "ts"@), TypeView::Text, ValueView::Text(m.ts@))
            &&& is_cell(member(v, "user"@), TypeView::Text, ValueView::Text(m.user@))
            &&& is_cell(member(v, "text"@), TypeView::Text, ValueView::Text(m.text@))
            &&& is_cell(member(v, "thread_ts"@), TypeView::Text, ValueView::Text(m.thread_ts@))
            &&& is_cell(member(v, "subtype"@), TypeView::Text, ValueView::Text(m.subtype@))
        }),
        i < files@.len() ==> ({
            let v = items_of(value, "files"@)[i];
            let f = files@[i];
            &&& is_cell(member(v, "id"@), TypeView::Text, ValueView::Text(f.id@))
            &&& is_cell(member(v, "name"@), TypeView::Text, ValueView::Text(f.name@))
            &&& is_cell(member(v, "mimetype"@), TypeView::Text, ValueView::Text(f.mimetype@))
            &&& is_cell(member(v, "size"@), TypeView::Int, ValueView::Int(f.size as int))
            &&& is_cell(member(v, "user"@), TypeView::Text, ValueView::Text(f.user@))
        }),
        i < users@.len() ==> ({
            let v = items_of(value, "members"@)[i];
            let u = users@[i];
            &&& is_cell(member(v, "id"@), TypeView::Text, ValueView::Text(u.id@))
            &&& is_cell(member(v, "name"@), TypeView::Text, ValueView::Text(u.name@))
            &&& is_cell(member(v, "real_name"@), TypeView::Text, ValueView::Text(u.real_name@))
            &&& is_cell(member(v, "is_bot"@), TypeView::Bool, ValueView::Bool(u.is_bot))
            &&& is_cell(member(v, "deleted"@), TypeView::Bool, ValueView::Bool(u.deleted))
        }),
        i < reactions@.len() ==> ({
            let v = items_of(value, "reactions"@)[i];
            let x = reactions@[i];
            &&& is_cell(member(v, "name"@), TypeView::Text, ValueView::Text(x.name@))
            &&& is_cell(member(v, "count"@), TypeView::Int, ValueView::Int(x.count as int))
        }),
        messages@.len() == items_of(value, "messages"@).len(),
        files@.len() == items_of(value, "files"@).len(),
        users@.len() == items_of(value, "members"@).len(),
        reactions@.len() == items_of(value, "reactions"@).len(),
{
    if i < messages@.len() {
        assert(message_is(messages@[i], items_of(value, "messages"@)[i]));
    }
    if i < files@.len() {
        assert(file_is(files@[i], items_of(value, "files"@)[i]));
    }
    if i < users@.len() {
        assert(user_is(users@[i], items_of(value, "members"@)[i]));
    }
    if i < reactions@.len() {
        assert(reaction_is(reactions@[i], items_of(value, "reactions"@)[i]));
    }
}

/// The rows of an answer are those of its objects, each cell the member that its column is named
/// after.
pub proof fn law_rows_hold_the_members_of_their_columns(
    kind: NodeKind,
    value: Json,
    rows: Result<Vec<Row>, SlackError>,
    i: int,
    k: int,
)
    requires
        call_ensures(decode_list, (kind, &value), rows),
        rows is Ok,
        0 <= i < rows->Ok_0@.len(),
        0 <= k < columns_of(kind).len(),
    ensures
        rows->Ok_0@[i]@.len() == columns_of(kind).len(),
        is_cell(
            member(items_of(value, list_member(kind))[i], columns_of(kind)[k].0),
            columns_of(kind)[k].1,
            rows->Ok_0@[i]@[k],
        ),
        answers_under(kind, list_member(kind)),
{
    law_columns_hold_the_members_of_their_name(kind, items_of(value, list_member(kind))[i], k);
    assert(rows->Ok_0@[i]@ == row_view(kind, items_of(value, list_member(kind))[i]));
}

} // verus!
