use qfs::gdrive::read as drive;
use qfs::gmail::read as mail;
use qfs::plan::{EffectKind, EffectNode, NodeId, Target};
use qfs::secrets::key::DriverId;
use qfs::slack::read as slack;
use qfs::sys::applier::{
    defined_path_from_target, route, static_verb_label, Route, SysApplier, SysBackend, SysError, SysNode,
};
use qfs::types::predicate::{CmpOp, ColRef, Literal, Predicate};
use qfs::types::schema::{Column, ColumnType, Schema};
use qfs::types::value::{Row, RowBatch, Value};
use std::cell::RefCell;
use std::sync::Arc;

// ---- Drive -----------------------------------------------------------------------------------

struct MockDriveClient {
    pages: RefCell<Vec<drive::FilePage>>,
    drives: Vec<drive::SharedDrive>,
    queries: RefCell<Vec<(String, Option<String>, Option<u32>)>>,
    plans: RefCell<Vec<drive::ReadPlan>>,
}

impl MockDriveClient {
    fn new(pages: Vec<drive::FilePage>) -> Self {
        MockDriveClient {
            pages: RefCell::new(pages),
            drives: Vec::new(),
            queries: RefCell::new(Vec::new()),
            plans: RefCell::new(Vec::new()),
        }
    }

    fn queries(&self) -> Vec<String> {
        self.queries.borrow().iter().map(|q| q.0.clone()).collect()
    }
}

impl drive::GDriveClient for MockDriveClient {
    fn list_files(
        &self,
        query: &str,
        drive_id: Option<&str>,
        limit: Option<u32>,
    ) -> Result<drive::FilePage, drive::DriveError> {
        self.queries
            .borrow_mut()
            .push((query.to_string(), drive_id.map(str::to_string), limit));
        let mut pages = self.pages.borrow_mut();
        if pages.is_empty() {
            Ok(drive::FilePage { files: Vec::new(), next_page_token: None })
        } else {
            Ok(pages.remove(0))
        }
    }

    fn list_drives(&self) -> Result<Vec<drive::SharedDrive>, drive::DriveError> {
        Ok(self.drives.clone())
    }

    fn fetch(&self, plan: &drive::ReadPlan) -> Result<Vec<u8>, drive::DriveError> {
        self.plans.borrow_mut().push(plan.clone());
        Ok(b"%PDF-1.7".to_vec())
    }
}

/// Documents of one type, with a target for it.
struct Office;

impl drive::Exports for Office {
    fn is_native(&self, file: &drive::FileMeta) -> bool {
        file.mime_type.starts_with("application/vnd.google-apps.")
    }

    fn asked_target(&self, token: &str) -> drive::ExportTarget {
        drive::ExportTarget { mime: format!("text/{token}"), suffix: token.to_string() }
    }

    fn usual_target(&self, mime: &str) -> Option<drive::ExportTarget> {
        mime.ends_with(".document").then(|| drive::ExportTarget {
            mime: "text/markdown".to_string(),
            suffix: "md".to_string(),
        })
    }
}

fn mine(segments: &[&str]) -> drive::DrivePath {
    drive::DrivePath::My {
        segments: segments.iter().map(|s| s.to_string()).collect(),
        form: drive::FileForm::default(),
    }
}

/// Pushes nothing but the parent.
struct ByParent;

impl drive::FolderSearch for ByParent {
    fn query(&self, parent_id: &str, _predicate: Option<&Predicate>) -> String {
        format!("'{parent_id}' in parents")
    }
}

fn file(id: &str, name: &str, mime: &str, parents: Vec<String>) -> drive::FileMeta {
    drive::FileMeta {
        id: id.to_string(),
        name: name.to_string(),
        mime_type: mime.to_string(),
        parents,
        size: 0,
        modified_time: 0,
        md5: String::new(),
        rev: String::new(),
        drive_id: String::new(),
        trashed: false,
    }
}

fn page(files: Vec<drive::FileMeta>) -> drive::FilePage {
    drive::FilePage { files, next_page_token: None }
}

#[test]
fn my_drive_path_walks_names_to_ids_then_lists_children() {
    let reports = file("rep1", "Reports", drive::FOLDER_MIME, vec!["root".to_string()]);
    let child = file("f1", "q3.csv", "text/csv", vec!["rep1".to_string()]);
    let client = MockDriveClient::new(vec![page(vec![reports]), page(vec![child])]);

    let address = Ok(mine(&["Reports"]));
    let rows = drive::read_rows(&client, &ByParent, &Office, address, "/drive/my/Reports", None).unwrap();
    assert_eq!(rows.len(), 1);
    assert_eq!(rows[0].file.name, "q3.csv");

    let queries = client.queries();
    assert_eq!(queries.len(), 2);
    assert!(queries[0].contains("name = 'Reports'") && queries[0].contains("'root' in parents"));
    assert!(queries[1].contains("'rep1' in parents"));
    assert!(queries[1].contains("trashed = false"));
    assert_eq!(client.queries.borrow()[0].2, Some(2));
    assert_eq!(client.queries.borrow()[1].2, Some(1000));
}

#[test]
fn a_missing_path_segment_is_a_structured_not_found() {
    let client = MockDriveClient::new(Vec::new());
    let address = Ok(mine(&["Nope"]));
    let err = drive::read_rows(&client, &ByParent, &Office, address, "/drive/my/Nope", None).unwrap_err();
    assert_eq!(err.code(), "not_found");
}

#[test]
fn by_id_lists_a_folder_directly_without_a_walk() {
    let child = file("f9", "a.txt", "text/plain", vec!["fold9".to_string()]);
    let client = MockDriveClient::new(vec![page(vec![child])]);
    let address = Ok(drive::DrivePath::ById { id: "fold9".to_string() });
    let rows = drive::read_rows(&client, &ByParent, &Office, address, "id:fold9", None).unwrap();
    assert_eq!(rows.len(), 1);
    let queries = client.queries();
    assert_eq!(queries.len(), 1, "no walk for an id: address");
    assert!(queries[0].contains("'fold9' in parents"));
}

#[test]
fn the_drive_root_lists_the_two_corpora() {
    let client = MockDriveClient::new(Vec::new());
    let rows = drive::read_rows(&client, &ByParent, &Office, Ok(drive::DrivePath::Root), "/drive", None).unwrap();
    let names: Vec<&str> = rows.iter().map(|r| r.file.name.as_str()).collect();
    assert_eq!(names, vec!["my", "shared"]);
    assert!(rows.iter().all(|r| r.content.is_none() && r.file.mime_type == "application/vnd.google-apps.folder"));
    assert!(client.queries().is_empty());
}

#[test]
fn shared_drives_are_folders_and_are_walked_within() {
    let mut client = MockDriveClient::new(vec![
        page(vec![file("s1", "Plans", drive::FOLDER_MIME, vec!["d7".to_string()])]),
        page(vec![file("p1", "plan.txt", "text/plain", vec!["s1".to_string()])]),
    ]);
    client.drives = vec![
        drive::SharedDrive { id: "d6".to_string(), name: "Other".to_string() },
        drive::SharedDrive { id: "d7".to_string(), name: "Team".to_string() },
    ];
    let roots =
        drive::read_rows(&client, &ByParent, &Office, Ok(drive::DrivePath::SharedRoot), "/drive/shared", None).unwrap();
    assert_eq!(roots[1].file.id, "d7");
    assert_eq!(roots[1].file.name, "Team");
    assert_eq!(roots[1].file.drive_id, "d7");
    let address = Ok(drive::DrivePath::Shared {
        drive: "Team".to_string(),
        segments: vec!["Plans".to_string()],
        form: drive::FileForm::default(),
    });
    let rows = drive::read_rows(&client, &ByParent, &Office, address, "/drive/shared/Team/Plans", None).unwrap();
    assert_eq!(rows[0].file.id, "p1");
    let asked = client.queries.borrow();
    assert!(asked[0].0.contains("'d7' in parents"));
    assert_eq!(asked[0].1.as_deref(), Some("d7"));
    assert_eq!(asked[1].1.as_deref(), Some("d7"));
    let missing = Ok(drive::DrivePath::Shared { drive: "Nobody".to_string(), segments: Vec::new(), form: drive::FileForm::default() });
    let err = drive::read_rows(&client, &ByParent, &Office, missing, "/drive/shared/Nobody", None).unwrap_err();
    assert_eq!(err.code(), "not_found");
}

#[test]
fn a_path_to_a_file_reads_as_one_row_with_its_content() {
    let reports = file("rep1", "Reports", drive::FOLDER_MIME, vec!["root".to_string()]);
    let pdf = file("f3", "q3.pdf", "application/pdf", vec!["rep1".to_string()]);
    let client = MockDriveClient::new(vec![page(vec![reports]), page(vec![pdf.clone()])]);
    let address = Ok(mine(&["Reports", "q3.pdf"]));
    let rows =
        drive::read_rows(&client, &ByParent, &Office, address, "/drive/my/Reports/q3.pdf", None).unwrap();
    assert_eq!(rows, vec![drive::FileRow { file: pdf, content: Some(b"%PDF-1.7".to_vec()) }]);
    assert_eq!(client.queries().len(), 2, "a file has no children to list");
    assert_eq!(
        *client.plans.borrow(),
        vec![drive::ReadPlan::Download { id: "f3".to_string(), revision: None }]
    );
}

#[test]
fn a_path_to_a_document_exports_it() {
    let doc = |mime: &str| file("d1", "Notes", mime, vec!["root".to_string()]);
    let read = |mime: &str, form: drive::FileForm| {
        let client = MockDriveClient::new(vec![page(vec![doc(mime)])]);
        let address = drive::DrivePath::My { segments: vec!["Notes".to_string()], form };
        let r = drive::read_rows(&client, &ByParent, &Office, Ok(address), "/drive/my/Notes", None);
        let plans = client.plans.borrow().clone();
        (r, plans)
    };
    let (rows, plans) = read("application/vnd.google-apps.document", drive::FileForm::default());
    assert_eq!(rows.unwrap()[0].content.as_deref(), Some(&b"%PDF-1.7"[..]));
    assert!(matches!(&plans[0], drive::ReadPlan::Export { target, .. } if target.suffix == "md"));
    let form = drive::FileForm { revision: None, export: Some("csv".to_string()) };
    let (_, plans) = read("application/vnd.google-apps.form", form);
    assert!(matches!(&plans[0], drive::ReadPlan::Export { target, .. } if target.mime == "text/csv"));
    let (refused, plans) = read("application/vnd.google-apps.form", drive::FileForm::default());
    assert_eq!(refused.unwrap_err().code(), "no_export_target");
    assert!(plans.is_empty());
    let form = drive::FileForm { revision: Some("r2".to_string()), export: Some("csv".to_string()) };
    let (_, plans) = read("text/plain", form);
    assert!(matches!(&plans[0], drive::ReadPlan::Download { revision: Some(r), .. } if r == "r2"));
}

#[test]
fn a_failed_fetch_is_the_answer_to_a_file() {
    let err = drive::DriveError::Client { code: "auth".to_string() };
    assert_eq!(
        drive::file_row(file("f", "f", "text/plain", Vec::new()), Err(err.clone())),
        Err(err)
    );
}

#[test]
fn an_address_that_did_not_parse_is_handed_on() {
    let client = MockDriveClient::new(Vec::new());
    let err = drive::DriveError::InvalidPath { path: "/x".to_string() };
    let r = drive::read_rows(&client, &ByParent, &Office, Err(err.clone()), "/x", None);
    assert_eq!(r, Err(err));
    assert!(client.queries().is_empty());
}

#[test]
fn quoted_terms_escape_backslashes_and_quotes() {
    assert_eq!(drive::q_escape("O'Brien\\x"), "O\\'Brien\\\\x");
    assert_eq!(drive::q_escape("plain"), "plain");
    assert_eq!(
        drive::child_query("It's", "root"),
        "name = 'It\\'s' and 'root' in parents and trashed = false"
    );
}

#[test]
fn listings_leave_the_trash_out_unless_the_predicate_asks_for_it() {
    let compare = |column: &str, lit: Literal| {
        Predicate::Cmp(ColRef { path: vec![column.to_string()] }, CmpOp::Eq, lit)
    };
    assert_eq!(drive::listing_query(String::new(), None), "trashed = false");
    let by_name = compare("name", Literal::Text("trashed plans".to_string()));
    assert_eq!(
        drive::listing_query("name = 'trashed plans'".to_string(), Some(&by_name)),
        "name = 'trashed plans' and trashed = false"
    );
    let by_trash = Predicate::And(
        Box::new(by_name),
        Box::new(Predicate::Not(Box::new(compare("trashed", Literal::Bool(false))))),
    );
    assert_eq!(
        drive::listing_query("name = 'trashed plans'".to_string(), Some(&by_trash)),
        "name = 'trashed plans'"
    );
    let nested = Predicate::In(
        ColRef { path: vec!["trashed".to_string(), "by".to_string()] },
        vec![Literal::Null],
    );
    assert!(!nested.speaks_of("trashed"));
}

#[test]
fn native_documents_are_exported_and_other_files_downloaded() {
    let target = drive::ExportTarget { mime: "text/csv".to_string(), suffix: "csv".to_string() };
    let other = drive::ExportTarget { mime: "application/pdf".to_string(), suffix: "pdf".to_string() };
    let f = file("f1", "a", "text/plain", Vec::new());
    assert_eq!(
        drive::plan_read(&f, false, Some("r2"), Some(target.clone()), None),
        Ok(drive::ReadPlan::Download { id: "f1".to_string(), revision: Some("r2".to_string()) })
    );
    assert_eq!(
        drive::plan_read(&f, true, None, None, Some(other.clone())),
        Ok(drive::ReadPlan::Export { id: "f1".to_string(), target: other.clone() })
    );
    assert_eq!(
        drive::plan_read(&f, true, None, Some(target.clone()), Some(other)),
        Ok(drive::ReadPlan::Export { id: "f1".to_string(), target })
    );
    assert_eq!(
        drive::plan_read(&f, true, None, None, None).unwrap_err().code(),
        drive::DriveError::NoExportTarget { mime: "text/plain".to_string() }.code()
    );
}

#[test]
fn a_codec_failure_keeps_its_reason() {
    let r = drive::decode_body(Err("bad csv".to_string()));
    assert_eq!(r, Err(drive::DriveError::CodecDecode { reason: "bad csv".to_string() }));
    assert!(drive::decode_body(Ok(RowBatch::default())).is_ok());
}

#[test]
fn a_client_failure_ends_a_walk() {
    struct Down;
    impl drive::GDriveClient for Down {
        fn list_files(
            &self,
            _q: &str,
            _d: Option<&str>,
            _l: Option<u32>,
        ) -> Result<drive::FilePage, drive::DriveError> {
            Err(drive::DriveError::Client { code: "auth".to_string() })
        }
        fn list_drives(&self) -> Result<Vec<drive::SharedDrive>, drive::DriveError> {
            Err(drive::DriveError::Client { code: "auth".to_string() })
        }
        fn fetch(&self, _p: &drive::ReadPlan) -> Result<Vec<u8>, drive::DriveError> {
            Err(drive::DriveError::Client { code: "auth".to_string() })
        }
    }
    for address in [
        drive::DrivePath::MyRoot,
        drive::DrivePath::SharedRoot,
        mine(&["a"]),
        drive::DrivePath::Shared { drive: "d".to_string(), segments: Vec::new(), form: drive::FileForm::default() },
    ] {
        let err = drive::read_rows(&Down, &ByParent, &Office, Ok(address), "/drive", None).unwrap_err();
        assert_eq!(err.code(), "auth");
    }
}

// ---- mail ------------------------------------------------------------------------------------

struct MockGmailClient {
    page: mail::MessageIdPage,
    messages: Vec<mail::MailMessage>,
    searches: RefCell<Vec<(String, Option<u32>)>>,
}

impl mail::GmailClient for MockGmailClient {
    fn search_message_ids(
        &self,
        query: &str,
        limit: Option<u32>,
    ) -> Result<mail::MessageIdPage, mail::GmailError> {
        self.searches.borrow_mut().push((query.to_string(), limit));
        Ok(self.page.clone())
    }

    fn get_message(&self, id: &str) -> Result<mail::MailMessage, mail::GmailError> {
        self.messages
            .iter()
            .find(|m| m.id == id)
            .cloned()
            .ok_or(mail::GmailError::Client { code: "not_found".to_string() })
    }
}

fn fixture_message(id: &str, subject: &str) -> mail::MailMessage {
    mail::MailMessage {
        id: id.to_string(),
        thread_id: "t1".to_string(),
        label_ids: vec!["INBOX".to_string()],
        date: 1_700_000_000,
        from: "alice@example.com".to_string(),
        subject: subject.to_string(),
        snippet: "preview".to_string(),
        attachments: Vec::new(),
    }
}

fn mailbox(ids: &[&str], messages: Vec<mail::MailMessage>) -> MockGmailClient {
    MockGmailClient {
        page: mail::MessageIdPage {
            ids: ids.iter().map(|s| s.to_string()).collect(),
            next_page_token: None,
        },
        messages,
        searches: RefCell::new(Vec::new()),
    }
}

#[test]
fn reads_a_label_collection_into_message_rows() {
    let client = mailbox(&["m1"], vec![fixture_message("m1", "Invoice 42")]);
    let address = Ok(mail::MailPath::Label { name: "INBOX".to_string() });
    let rows = mail::read_rows(&client, address, "/mail/INBOX").unwrap();
    assert_eq!(rows.len(), 1);
    assert_eq!(rows[0].subject, "Invoice 42");
    assert_eq!(client.searches.borrow()[0], ("label:INBOX".to_string(), Some(1000)));
}

#[test]
fn a_message_node_is_not_a_collection_read() {
    let client = mailbox(&[], Vec::new());
    let address = Ok(mail::MailPath::Message {
        label: "INBOX".to_string(),
        id: "18f1a2b3".to_string(),
    });
    let err = mail::read_rows(&client, address, "/mail/INBOX/18f1a2b3").unwrap_err();
    assert_eq!(err.code(), "invalid_path");
    assert!(client.searches.borrow().is_empty());
}

#[test]
fn drafts_are_searched_as_drafts() {
    let client = mailbox(&[], Vec::new());
    let rows = mail::read_rows(&client, Ok(mail::MailPath::Drafts), "/mail/drafts").unwrap();
    assert!(rows.is_empty());
    assert_eq!(client.searches.borrow()[0].0, "in:draft");
}

#[test]
fn a_message_that_does_not_come_fails_the_read() {
    let client = mailbox(&["m1", "gone"], vec![fixture_message("m1", "a")]);
    let address = Ok(mail::MailPath::Label { name: "X".to_string() });
    assert_eq!(mail::read_rows(&client, address, "/mail/X").unwrap_err().code(), "not_found");
    let bad = mail::GmailError::InvalidPath { path: "/y".to_string(), reason: "r".to_string() };
    assert_eq!(mail::read_rows(&client, Err(bad.clone()), "/y"), Err(bad));
    assert_eq!(
        mail::read_rows(&client, Ok(mail::MailPath::Root), "/mail").unwrap_err().code(),
        "invalid_path"
    );
}

// ---- Slack -----------------------------------------------------------------------------------

struct MockSlackClient {
    answer: RefCell<Option<Result<slack::Json, slack::SlackError>>>,
    calls: RefCell<Vec<(slack::NodeKind, Vec<(String, String)>)>>,
}

impl MockSlackClient {
    fn new(answer: Result<slack::Json, slack::SlackError>) -> Self {
        MockSlackClient { answer: RefCell::new(Some(answer)), calls: RefCell::new(Vec::new()) }
    }
}

impl slack::SlackClient for MockSlackClient {
    fn list(
        &self,
        kind: slack::NodeKind,
        params: &Vec<(String, String)>,
    ) -> Result<slack::Json, slack::SlackError> {
        self.calls.borrow_mut().push((kind, params.clone()));
        self.answer.borrow_mut().take().unwrap()
    }
}

fn text(s: &str) -> slack::Json {
    slack::Json::Text(s.to_string())
}

fn object(members: Vec<(&str, slack::Json)>) -> slack::Json {
    slack::Json::Object(members.into_iter().map(|(k, v)| (k.to_string(), v)).collect())
}

fn nothing_pushed() -> slack::PushdownResult {
    slack::PushdownResult { params: Vec::new(), residual: None }
}

fn user(id: &str, name: &str, real: &str, bot: bool) -> slack::Json {
    object(vec![
        ("id", text(id)),
        ("name", text(name)),
        ("real_name", text(real)),
        ("is_bot", slack::Json::Bool(bot)),
        ("deleted", slack::Json::Bool(false)),
    ])
}

#[test]
fn reads_the_users_directory_into_typed_rows() {
    let members = slack::Json::Array(vec![
        user("U1", "alice", "Alice", false),
        user("U2", "bot", "Bot", true),
    ]);
    let client = MockSlackClient::new(Ok(object(vec![("members", members)])));
    let rows =
        slack::read_rows(&client, Ok(slack::NodeKind::Users), None, nothing_pushed()).unwrap();
    assert_eq!(rows.len(), 2, "two user rows decoded");
    assert_eq!(rows[0].values[0], Value::Text("U1".to_string()));
    assert_eq!(rows[1].values[3], Value::Bool(true));
    let calls = client.calls.borrow();
    assert_eq!(calls.len(), 1);
    assert_eq!(calls[0].0, slack::NodeKind::Users);
}

#[test]
fn unknown_workspace_node_is_rejected() {
    let client = MockSlackClient::new(Ok(slack::Json::Null));
    let refused = slack::SlackError::InvalidPath { path: "/slack/acme/not-a-node".to_string() };
    let err = slack::read_rows(&client, Err(refused), None, nothing_pushed()).unwrap_err();
    assert_eq!(err.code(), "slack_invalid_path");
    assert!(client.calls.borrow().is_empty(), "a rejected path performs no I/O");
}

#[test]
fn only_logs_of_messages_ask_for_a_window() {
    let pushed = || slack::PushdownResult {
        params: vec![("oldest".to_string(), "1".to_string())],
        residual: None,
    };
    let client = MockSlackClient::new(Ok(slack::Json::Null));
    let rows = slack::read_rows(&client, Ok(slack::NodeKind::Messages), None, pushed()).unwrap();
    assert!(rows.is_empty());
    assert_eq!(client.calls.borrow()[0].1.len(), 1);
    let client = MockSlackClient::new(Err(slack::SlackError::Client { code: "auth".to_string() }));
    let err = slack::read_rows(&client, Ok(slack::NodeKind::Files), None, pushed()).unwrap_err();
    assert_eq!(err.code(), "auth");
    assert!(client.calls.borrow()[0].1.is_empty());
}

#[test]
fn answers_decode_with_defaults_for_what_is_missing() {
    let answer = object(vec![(
        "messages",
        slack::Json::Array(vec![
            object(vec![("ts", text("1.5")), ("text", text("hi"))]),
            slack::Json::Null,
            object(vec![]),
            text("no object"),
        ]),
    )]);
    let messages = slack::decode_messages(&answer);
    assert_eq!(messages.len(), 2);
    assert_eq!(messages[0].ts, "1.5");
    assert_eq!(messages[0].text, "hi");
    assert_eq!(messages[0].user, "");
    assert_eq!(messages[1].ts, "");
    let reactions = slack::decode_list(
        slack::NodeKind::Reactions,
        &object(vec![(
            "reactions",
            slack::Json::Array(vec![object(vec![
                ("name", text("+1")),
                ("count", slack::Json::Int(3)),
            ])]),
        )]),
    )
    .unwrap();
    assert_eq!(
        reactions[0].values,
        vec![Value::Text("+1".to_string()), Value::Int(3)]
    );
    assert!(slack::decode_files(&slack::Json::Null).is_empty());
    assert!(slack::decode_users(&object(vec![])).is_empty());
}

// ---- administration --------------------------------------------------------------------------

#[derive(Default)]
struct FakeBackend {
    inserted: RefCell<Vec<&'static str>>,
    removed: RefCell<Vec<String>>,
}

impl SysBackend for FakeBackend {
    fn scan(&self, _node: SysNode) -> Result<RowBatch, SysError> {
        Ok(RowBatch::default())
    }
    fn insert_policy(&self, _row: &RowBatch) -> Result<u64, SysError> {
        self.inserted.borrow_mut().push("policy");
        Ok(1)
    }
    fn set_setting(&self, _row: &RowBatch) -> Result<u64, SysError> {
        self.inserted.borrow_mut().push("setting");
        Ok(1)
    }
    fn set_billing(&self, _row: &RowBatch) -> Result<u64, SysError> {
        self.inserted.borrow_mut().push("billing");
        Ok(1)
    }
    fn upsert_binding(&self, _row: &RowBatch) -> Result<u64, SysError> {
        self.inserted.borrow_mut().push("binding");
        Ok(1)
    }
    fn remove_binding(&self, path: &str) -> Result<u64, SysError> {
        self.removed.borrow_mut().push(path.to_string());
        Ok(1)
    }
}

fn batch(columns: &[&str], values: &[&str]) -> RowBatch {
    RowBatch::new(
        Schema::new(
            columns
                .iter()
                .map(|c| Column::new(c.to_string(), ColumnType::Text, true))
                .collect(),
        ),
        vec![Row::new(values.iter().map(|v| Value::Text(v.to_string())).collect())],
    )
}

fn effect(kind: EffectKind, path: &str, args: RowBatch) -> EffectNode {
    EffectNode {
        id: NodeId(0),
        kind,
        target: Target { driver: DriverId::new("sys"), path: path.to_string() },
        args,
    }
}

#[test]
fn insert_into_sys_policies_routes_to_the_backend() {
    let backend = Arc::new(FakeBackend::default());
    let applier = SysApplier::new(backend.clone());
    let row = batch(&["name", "allow", "target"], &["analysts", "SELECT", "/sql/*"]);
    let node = effect(EffectKind::Insert, "/sys/policies", row);
    let out = applier.apply_shared(&node, &Some(SysNode::Policies)).expect("policy insert applies");
    assert_eq!(out.affected, 1);
    assert_eq!(backend.inserted.borrow().len(), 1, "row reached backend");
    assert_eq!(backend.inserted.borrow()[0], "policy");
}

#[test]
fn insert_into_sys_settings_routes_to_the_backend() {
    let backend = Arc::new(FakeBackend::default());
    let applier = SysApplier::new(backend.clone());
    let row = batch(&["key", "value"], &["safety_mode", "policy-only"]);
    let node = effect(EffectKind::Insert, "/sys/settings", row);
    let out = applier.apply_shared(&node, &Some(SysNode::Settings)).expect("settings upsert applies");
    assert_eq!(out.affected, 1);
    assert_eq!(backend.inserted.borrow().len(), 1, "row reached backend");
    assert_eq!(backend.inserted.borrow()[0], "setting");
}

#[test]
fn insert_into_sys_billing_routes_to_the_backend() {
    let backend = Arc::new(FakeBackend::default());
    let applier = SysApplier::new(backend.clone());
    let row = batch(&["team_id", "tier", "status"], &["team-acme", "paid-team", "active"]);
    let node = effect(EffectKind::Insert, "/sys/billing", row);
    let out = applier.apply_shared(&node, &Some(SysNode::Billing)).expect("billing upsert applies");
    assert_eq!(out.affected, 1);
    assert_eq!(backend.inserted.borrow().len(), 1, "row reached backend");
    assert_eq!(backend.inserted.borrow()[0], "billing");
}

#[test]
fn upsert_into_sys_paths_routes_to_the_binding_backend() {
    let backend = Arc::new(FakeBackend::default());
    let applier = SysApplier::new(backend.clone());
    let row = batch(&["path", "driver"], &["/work/orders", "postgres"]);
    let node = effect(EffectKind::Upsert, "/sys/paths", row);
    let out = applier.apply_shared(&node, &Some(SysNode::Paths)).expect("binding upsert applies");
    assert_eq!(out.affected, 1);
    assert_eq!(backend.inserted.borrow().len(), 1, "row reached backend");
    assert_eq!(backend.inserted.borrow()[0], "binding");
}

#[test]
fn remove_on_sys_paths_reconstructs_the_multi_segment_path() {
    let backend = Arc::new(FakeBackend::default());
    let applier = SysApplier::new(backend.clone());
    let node = effect(EffectKind::Remove, "/sys/paths/work/orders", RowBatch::default());
    applier.apply_shared(&node, &Some(SysNode::Paths)).expect("binding remove applies");
    assert_eq!(backend.removed.borrow().as_slice(), &["/work/orders".to_string()]);
}

#[test]
fn update_or_remove_on_audit_is_rejected_in_the_applier() {
    let backend = Arc::new(FakeBackend::default());
    let applier = SysApplier::new(backend.clone());
    for (kind, path) in [
        (EffectKind::Update, "/sys/audit"),
        (EffectKind::Remove, "/sys/audit"),
        (EffectKind::Insert, "/sys/users"),
        (EffectKind::Insert, "/sys/connections"),
    ] {
        let view = SysNode::View(path.trim_start_matches("/sys/").to_string());
        let node = effect(kind, path, RowBatch::default());
        assert!(
            applier.apply_shared(&node, &Some(view)).is_err(),
            "{path} must reject a write in the applier"
        );
    }
    assert!(backend.inserted.borrow().is_empty());
}

#[test]
fn a_plan_reports_the_effect_that_was_refused() {
    let applier = SysApplier::new(Arc::new(FakeBackend::default()));
    let node = effect(EffectKind::Update, "/sys/audit", RowBatch::default());
    let err = applier.apply(&node, &Some(SysNode::View("audit".to_string()))).unwrap_err();
    assert_eq!(err.id, NodeId(0));
    assert_eq!(err.reason, "/sys/audit does not accept UPDATE");
    let unknown = applier.clone().apply(&node, &None).unwrap_err();
    assert_eq!(unknown.reason, "unknown /sys node: /sys/audit");
    let node = effect(EffectKind::Upsert, "/sys/settings", RowBatch::default());
    assert_eq!(applier.apply(&node, &Some(SysNode::Settings)).unwrap().affected, 1);
}

#[test]
fn a_disconnect_needs_a_path() {
    assert_eq!(defined_path_from_target("/sys/paths/work/orders"), Some("/work/orders".to_string()));
    assert_eq!(defined_path_from_target("sys/paths//a/"), Some("/a".to_string()));
    assert_eq!(defined_path_from_target("/sys/paths"), None);
    assert_eq!(defined_path_from_target("/sys/paths/"), None);
    match route(&EffectKind::Remove, &Some(SysNode::Paths), "/sys/paths") {
        Route::Refuse(SysError::MalformedEffect { reason }) => assert_eq!(
            reason,
            "DISCONNECT needs a path, e.g. REMOVE /sys/paths/work/orders"
        ),
        other => panic!("expected a malformed effect, got {other:?}"),
    }
    assert_eq!(static_verb_label(&EffectKind::Call("p".to_string())), "CALL");
    assert_eq!(static_verb_label(&EffectKind::Read), "READ");
    assert_eq!(
        SysError::Backend { reason: "disk full".to_string() }.message(),
        "disk full"
    );
}
