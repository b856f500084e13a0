//! Reading a collection of mail: a label or the drafts. The matching messages are found by a
//! search and then fetched one by one.
use crate::text::{opt_view, stands_at, views};
use vstd::prelude::*;

verus! {

/// The most messages that a read asks for.
pub const READ_CAP: u32 = 1_000;

/// Why a read failed.
#[derive(Debug, Clone, PartialEq, Eq)]
#[non_exhaustive]
pub enum GmailError {
    /// The path is none that can be read.
    InvalidPath { path: String, reason: String },
    /// The client failed.
    Client { code: String },
}

/// What a [`GmailError`] holds.
#[verifier::ext_equal]
pub ghost enum GmailErrorView {
    InvalidPath { path: Seq<char>, reason: Seq<char> },
    Client { code: Seq<char> },
}

impl View for GmailError {
    type V = GmailErrorView;

    open spec fn view(&self) -> GmailErrorView {
        match self {
            GmailError::InvalidPath { path, reason } => GmailErrorView::InvalidPath {
                path: path@,
                reason: reason@,
            },
            GmailError::Client { code } => GmailErrorView::Client { code: code@ },
        }
    }
}

impl GmailError {
    /// The stable code of the error.
    #[must_use]
    pub fn code(&self) -> (r: &str)
        ensures
            r@ == (match *self {
                GmailError::InvalidPath { .. } => "invalid_path"@,
                GmailError::Client { code } => code@,
            }),
    {
        match self {
            GmailError::InvalidPath { .. } => "invalid_path",
            GmailError::Client { code } => code.as_str(),
        }
    }
}

/// What a path of the mail driver addresses.
#[derive(Debug, Clone, PartialEq, Eq)]
#[non_exhaustive]
pub enum MailPath {
    /// The driver's root.
    Root,
    /// The messages with a label.
    Label { name: String },
    /// The drafts.
    Drafts,
    /// One message.
    Message { label: String, id: String },
}

/// One message.
#[derive(Debug, Clone, PartialEq, Eq)]
pub struct MailMessage {
    pub id: String,
    pub thread_id: String,
    pub label_ids: Vec<String>,
    pub date: i64,
    pub from: String,
    pub subject: String,
    pub snippet: String,
    pub attachments: Vec<String>,
}

/// One page of message ids.
#[derive(Debug, Clone, PartialEq, Eq)]
pub struct MessageIdPage {
    /// The ids.
    pub ids: Vec<String>,
    /// What asks for the next page, if there is one.
    pub next_page_token: Option<String>,
}

/// What asks the service.
pub trait GmailClient {
    /// The ids of the messages that a search finds.
    fn search_message_ids(&self, query: &str, limit: Option<u32>) -> Result<
        MessageIdPage,
        GmailError,
    >;

    /// A message.
    fn get_message(&self, id: &str) -> Result<MailMessage, GmailError>;
}

/// The search for what a path addresses, if it is a collection.
pub open spec fn collection_search(address: MailPath) -> Option<Seq<char>> {
    match address {
        MailPath::Label { name } => Some("label:"@ + name@),
        MailPath::Drafts => Some("in:draft"@),
        _ => None,
    }
}

/// The search for what a path addresses, if it is a collection.
pub fn collection_query(address: &MailPath) -> (r: Option<String>)
    ensures
        opt_view(r) == collection_search(*address),
{
    match address {
        MailPath::Label { name } => {
            let mut q: String = "label:".to_owned();
            q.append(name.as_str());
            Some(q)
        },
        MailPath::Drafts => Some("in:draft".to_owned()),
        _ => None,
    }
}

/// `r` is what the client answered to this search.
pub open spec fn searched<C: GmailClient>(
    client: C,
    query: Seq<char>,
    r: Result<MessageIdPage, GmailError>,
) -> bool {
    exists|q: &str|
        q@ == query && #[trigger] call_ensures(
            C::search_message_ids,
            (&client, q, Some(READ_CAP)),
            r,
        )
}

/// `r` is what the client answered when asked for this message.
pub open spec fn fetched<C: GmailClient>(
    client: C,
    id: Seq<char>,
    r: Result<MailMessage, GmailError>,
) -> bool {
    exists|i: &str| i@ == id && #[trigger] call_ensures(C::get_message, (&client, i), r)
}

/// The client answered with the message when asked for it.
pub open spec fn came<C: GmailClient>(client: C, id: Seq<char>) -> bool {
    exists|m: MailMessage| #[trigger] fetched(client, id, Ok::<MailMessage, GmailError>(m))
}

/// `r` is what fetching the messages comes to: each of them, in the order of the ids, or the first
/// error.
pub open spec fn all_fetched<C: GmailClient>(
    client: C,
    ids: Seq<Seq<char>>,
    r: Result<Seq<MailMessage>, GmailError>,
) -> bool {
    match r {
        Ok(messages) => messages.len() == ids.len() && forall|i: int|
            0 <= i < ids.len() ==> fetched(
                client,
                #[trigger] ids[i],
                Ok::<MailMessage, GmailError>(messages[i]),
            ),
        Err(e) => exists|i: int|
            0 <= i < ids.len() && #[trigger] fetched(
                client,
                ids[i],
                Err::<MailMessage, GmailError>(e),
            ) && forall|j: int| 0 <= j < i ==> came(client, #[trigger] ids[j]),
    }
}

/// The messages of a result.
pub open spec fn messages_of(r: Result<Vec<MailMessage>, GmailError>) -> Result<
    Seq<MailMessage>,
    GmailError,
> {
    match r {
        Ok(v) => Ok(v@),
        Err(e) => Err(e),
    }
}

/// `r` is what reading a collection by this search comes to.
pub open spec fn collection_read<C: GmailClient>(
    client: C,
    query: Seq<char>,
    r: Result<Seq<MailMessage>, GmailError>,
) -> bool {
    exists|page: Result<MessageIdPage, GmailError>| #[trigger]
        searched(client, query, page) && match page {
            Err(e) => r == Err::<Seq<MailMessage>, GmailError>(e),
            Ok(p) => all_fetched(client, views(p.ids@), r),
        }
}

fn fetch_all<C: GmailClient>(client: &C, ids: &Vec<String>) -> (r: Result<
    Vec<MailMessage>,
    GmailError,
>)
    ensures
        all_fetched(*client, views(ids@), messages_of(r)),
{
    let mut messages: Vec<MailMessage> = Vec::new();
    let mut i: usize = 0;
    while i < ids.len()
        invariant
            i <= ids.len(),
            messages@.len() == i,
            forall|j: int|
                0 <= j < i ==> fetched(
                    *client,
                    #[trigger] views(ids@)[j],
                    Ok::<MailMessage, GmailError>(messages@[j]),
                ),
        decreases ids.len() - i,
    {
        assert(views(ids@)[i as int] == ids@[i as int]@);
        let answer: Result<MailMessage, GmailError> = client.get_message(ids[i].as_str());
        assert(fetched(*client, views(ids@)[i as int], answer));
        match answer {
            Ok(m) => messages.push(m),
            Err(e) => {
                assert(fetched(
                    *client,
                    views(ids@)[i as int],
                    Err::<MailMessage, GmailError>(e),
                ));
                assert forall|j: int| 0 <= j < i implies came(
                    *client,
                    #[trigger] views(ids@)[j],
                ) by {
                    assert(fetched(
                        *client,
                        views(ids@)[j],
                        Ok::<MailMessage, GmailError>(messages@[j]),
                    ));
                }
                return Err(e);
            },
        }
        i = i + 1;
    }
    Ok(messages)
}

/// The error for a path that is no collection.
pub open spec fn not_a_collection(path: Seq<char>) -> GmailErrorView {
    GmailErrorView::InvalidPath { path, reason: "read a /mail/<label> or /mail/drafts collection"@ }
}

/// Reads the messages of a collection. `address` is what parsing the path gave.
///
/// # Errors
/// The error of parsing the path, [`GmailError::InvalidPath`] for a path that is no collection, or
/// the client's error.
pub fn read_rows<C: GmailClient>(
    client: &C,
    address: Result<MailPath, GmailError>,
    path: &str,
) -> (r: Result<Vec<MailMessage>, GmailError>)
    ensures
        match address {
            Err(e) => r == Err::<Vec<MailMessage>, GmailError>(e),
            Ok(a) => match collection_search(a) {
                None => r is Err && r->Err_0@ == not_a_collection(path@),
                Some(q) => collection_read(*client, q, messages_of(r)),
            },
        },
{
    let address: MailPath = match address {
        Ok(a) => a,
        Err(e) => return Err(e),
    };
    let query: String = match collection_query(&address) {
        Some(q) => q,
        None => {
            return Err(
                GmailError::InvalidPath {
                    path: path.to_owned(),
                    reason: "read a /mail/<label> or /mail/drafts collection".to_owned(),
                },
            );
        },
    };
    let page: Result<MessageIdPage, GmailError> = client.search_message_ids(
        query.as_str(),
        Some(READ_CAP),
    );
    assert(searched(*client, query@, page));
    match page {
        Ok(p) => fetch_all(client, &p.ids),
        Err(e) => Err(e),
    }
}

/// Only the messages with a label and the drafts are searched for; a label is searched for by its
/// own name, so that two labels are never searched for alike, nor a label like the drafts.
pub proof fn law_each_collection_has_its_own_search(a: MailPath, b: MailPath)
    ensures
        collection_search(a) is Some <==> a is Label || a is Drafts,
        a matches MailPath::Label { name } ==> ({
            let s = collection_search(a)->Some_0;
            stands_at(s, 0, "label:"@) && s.skip(6) == name@
        }),
        (a is Label && b is Label && collection_search(a) == collection_search(b)) ==> a->name@
            == b->name@,
        (a is Label && b is Drafts) ==> collection_search(a) != collection_search(b),
{
    reveal_strlit("label:");
    reveal_strlit("in:draft");
    if a is Label {
        let s = collection_search(a)->Some_0;
        assert(s.subrange(0, 6) =~= "label:"@);
        assert(s.skip(6) =~= a->name@);
        assert(s[0] == 'l');
        assert("in:draft"@[0] == 'i');
        if b is Label && collection_search(a) == collection_search(b) {
            let t = collection_search(b)->Some_0;
            assert(t.skip(6) =~= b->name@);
        }
    }
}

/// The messages of a collection come in the order in which the search names them, one for each and
/// each fetched by its own id, and a read that is cut short is the start of the whole.
pub proof fn law_messages_come_in_the_order_of_the_search<C: GmailClient>(
    client: C,
    ids: Seq<Seq<char>>,
    messages: Seq<MailMessage>,
    k: int,
)
    requires
        all_fetched(client, ids, Ok(messages)),
        0 <= k < ids.len(),
    ensures
        messages.len() == ids.len(),
        fetched(client, ids[k], Ok(messages[k])),
        all_fetched(client, ids.take(k), Ok(messages.take(k))),
        all_fetched(client, ids.skip(k), Ok(messages.skip(k))),
{
    assert(ids[k] == ids[k]);
}

/// A read fails with the first message that does not come: all before it came, and its error is
/// the answer. What is no collection is refused with the path that was read, and the error of a
/// path that is none is handed on.
pub proof fn law_a_read_fails_with_its_first_error<C: GmailClient>(
    client: C,
    ids: Seq<Seq<char>>,
    e: GmailError,
    address: MailPath,
    path: &str,
    r: Result<Vec<MailMessage>, GmailError>,
)
    requires
        call_ensures(read_rows::<C>, (&client, Ok(address), path), r),
    ensures
        all_fetched(client, ids, Err(e)) ==> exists|i: int|
            0 <= i < ids.len() && #[trigger] fetched(client, ids[i], Err(e)) && forall|j: int|
                0 <= j < i ==> came(client, #[trigger] ids[j]),
        (address is Root || address is Message) ==> r is Err && (r->Err_0 matches GmailError::InvalidPath {
            path: p,
            reason: _,
        } && p@ == path@),
{
}

} // verus!
