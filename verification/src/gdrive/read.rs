//! Reading from a drive: which bytes to fetch for a file, and which files a folder holds.
//!
//! A document of the office suite has no bytes of its own, so a read exports it. A folder is
//! addressed by names but listed by its id, so a listing first walks the names, one lookup each.
//! Where the walk ends at a file, the read shows that file alone, with its content.
use crate::text::{
    chars_of, ends, lemma_replaced_concat, lemma_replaced_take, opt_str, opt_view, replaced, same, views,
};
use crate::types::predicate::{speaks_of, Predicate};
use crate::types::value::RowBatch;
use vstd::prelude::*;

verus! {

/// Why a read failed.
#[derive(Debug, Clone, PartialEq, Eq)]
#[non_exhaustive]
pub enum DriveError {
    /// The address is none of a drive.
    InvalidPath { path: String },
    /// A segment of the path names nothing.
    NotFound { path: String, segment: String, reason: String },
    /// Documents of this type cannot be exported.
    NoExportTarget { mime: String },
    /// The bytes could not be decoded into rows.
    CodecDecode { reason: String },
    /// The client failed.
    Client { code: String },
}

/// What a [`DriveError`] holds.
#[verifier::ext_equal]
pub ghost enum DriveErrorView {
    InvalidPath { path: Seq<char> },
    NotFound { path: Seq<char>, segment: Seq<char>, reason: Seq<char> },
    NoExportTarget { mime: Seq<char> },
    CodecDecode { reason: Seq<char> },
    Client { code: Seq<char> },
}

impl View for DriveError {
    type V = DriveErrorView;

    open spec fn view(&self) -> DriveErrorView {
        match self {
            DriveError::InvalidPath { path } => DriveErrorView::InvalidPath { path: path@ },
            DriveError::NotFound { path, segment, reason } => DriveErrorView::NotFound {
                path: path@,
                segment: segment@,
                reason: reason@,
            },
            DriveError::NoExportTarget { mime } => DriveErrorView::NoExportTarget { mime: mime@ },
            DriveError::CodecDecode { reason } => DriveErrorView::CodecDecode { reason: reason@ },
            DriveError::Client { code } => DriveErrorView::Client { code: code@ },
        }
    }
}

impl DriveError {
    /// The stable code of the error.
    pub open spec fn code_text(self) -> Seq<char> {
        match self {
            DriveError::InvalidPath { .. } => "invalid_path"@,
            DriveError::NotFound { .. } => "not_found"@,
            DriveError::NoExportTarget { .. } => "no_export_target"@,
            DriveError::CodecDecode { .. } => "codec_decode"@,
            DriveError::Client { code } => code@,
        }
    }

    /// The stable code of the error.
    #[must_use]
    pub fn code(&self) -> (r: &str)
        ensures
            r@ == self.code_text(),
    {
        match self {
            DriveError::InvalidPath { .. } => "invalid_path",
            DriveError::NotFound { .. } => "not_found",
            DriveError::NoExportTarget { .. } => "no_export_target",
            DriveError::CodecDecode { .. } => "codec_decode",
            DriveError::Client { code } => code.as_str(),
        }
    }
}

/// What a file is, apart from its content.
#[derive(Debug, Clone, PartialEq, Eq)]
pub struct FileMeta {
    /// The file's id.
    pub id: String,
    /// Its name.
    pub name: String,
    /// Its media type.
    pub mime_type: String,
    /// The ids of the folders that hold it.
    pub parents: Vec<String>,
    /// Its size in bytes.
    pub size: i64,
    /// When it was last changed.
    pub modified_time: i64,
    /// The digest of its content.
    pub md5: String,
    /// Its revision.
    pub rev: String,
    /// The shared drive that it belongs to; empty for one of the user's own.
    pub drive_id: String,
    /// Whether it is in the trash.
    pub trashed: bool,
}

/// What a [`FileMeta`] holds.
#[verifier::ext_equal]
pub ghost struct FileView {
    pub id: Seq<char>,
    pub name: Seq<char>,
    pub mime_type: Seq<char>,
    pub parents: Seq<Seq<char>>,
    pub size: i64,
    pub modified_time: i64,
    pub md5: Seq<char>,
    pub rev: Seq<char>,
    pub drive_id: Seq<char>,
    pub trashed: bool,
}

impl View for FileMeta {
    type V = FileView;

    open spec fn view(&self) -> FileView {
        FileView {
            id: self.id@,
            name: self.name@,
            mime_type: self.mime_type@,
            parents: views(self.parents@),
            size: self.size,
            modified_time: self.modified_time,
            md5: self.md5@,
            rev: self.rev@,
            drive_id: self.drive_id@,
            trashed: self.trashed,
        }
    }
}

/// What the files of a list hold.
pub open spec fn file_views(files: Seq<FileMeta>) -> Seq<FileView> {
    files.map_values(|f: FileMeta| f@)
}

/// What a document is exported to.
#[derive(Debug, Clone, PartialEq, Eq)]
pub struct ExportTarget {
    /// The media type.
    pub mime: String,
    /// The suffix of a file of that type.
    pub suffix: String,
}

/// What an [`ExportTarget`] holds.
#[verifier::ext_equal]
pub ghost struct TargetView {
    pub mime: Seq<char>,
    pub suffix: Seq<char>,
}

impl View for ExportTarget {
    type V = TargetView;

    open spec fn view(&self) -> TargetView {
        TargetView { mime: self.mime@, suffix: self.suffix@ }
    }
}

/// What an optional target holds.
pub open spec fn target_view(t: Option<ExportTarget>) -> Option<TargetView> {
    match t {
        Some(t) => Some(t@),
        None => None,
    }
}

/// How a file's content is fetched.
#[derive(Debug, Clone, PartialEq, Eq)]
#[non_exhaustive]
pub enum ReadPlan {
    /// Its bytes are downloaded.
    Download {
        /// The file's id.
        id: String,
        /// The revision, where the address names one.
        revision: Option<String>,
    },
    /// It is exported.
    Export {
        /// The file's id.
        id: String,
        /// What it is exported to.
        target: ExportTarget,
    },
}

/// What a [`ReadPlan`] holds.
#[verifier::ext_equal]
pub ghost enum PlanView {
    Download { id: Seq<char>, revision: Option<Seq<char>> },
    Export { id: Seq<char>, target: TargetView },
}

impl View for ReadPlan {
    type V = PlanView;

    open spec fn view(&self) -> PlanView {
        match self {
            ReadPlan::Download { id, revision } => PlanView::Download {
                id: id@,
                revision: opt_view(*revision),
            },
            ReadPlan::Export { id, target } => PlanView::Export { id: id@, target: target@ },
        }
    }
}

/// How a file is fetched: a document of the office suite is exported, to what the address asks for
/// before what its type calls for; any other file is downloaded.
pub open spec fn planned(
    file: FileView,
    native: bool,
    revision: Option<Seq<char>>,
    asked: Option<TargetView>,
    usual: Option<TargetView>,
) -> Result<PlanView, DriveErrorView> {
    if !native {
        Ok(PlanView::Download { id: file.id, revision })
    } else {
        match (asked, usual) {
            (Some(target), _) => Ok(PlanView::Export { id: file.id, target }),
            (None, Some(target)) => Ok(PlanView::Export { id: file.id, target }),
            (None, None) => Err(DriveErrorView::NoExportTarget { mime: file.mime_type }),
        }
    }
}

/// Plans the fetching of a file. `native` says whether the file is a document of the office
/// suite, `export_override` is the target that the address asks for, `default_target` the one for
/// the file's type. Only a native document is exported; an override on any other file says nothing.
///
/// # Errors
/// [`DriveError::NoExportTarget`] for a native document without any target.
pub fn plan_read(
    file: &FileMeta,
    native: bool,
    revision: Option<&str>,
    export_override: Option<ExportTarget>,
    default_target: Option<ExportTarget>,
) -> (r: Result<ReadPlan, DriveError>)
    ensures
        match r {
            Ok(plan) => planned(
                file@,
                native,
                opt_str(revision),
                target_view(export_override),
                target_view(default_target),
            ) == Ok::<PlanView, DriveErrorView>(plan@),
            Err(e) => planned(
                file@,
                native,
                opt_str(revision),
                target_view(export_override),
                target_view(default_target),
            ) == Err::<PlanView, DriveErrorView>(e@),
        },
{
    if native {
        let target: ExportTarget = match (export_override, default_target) {
            (Some(t), _) => t,
            (None, Some(t)) => t,
            (None, None) => {
                return Err(DriveError::NoExportTarget { mime: file.mime_type.clone() });
            },
        };
        return Ok(ReadPlan::Export { id: file.id.clone(), target });
    }
    let revision: Option<String> = match revision {
        Some(s) => Some(s.to_owned()),
        None => None,
    };
    Ok(ReadPlan::Download { id: file.id.clone(), revision })
}

/// The rows of a fetched body, from what the codec made of it.
///
/// # Errors
/// [`DriveError::CodecDecode`] with the codec's reason.
pub fn decode_body(decoded: Result<RowBatch, String>) -> (r: Result<RowBatch, DriveError>)
    ensures
        match decoded {
            Ok(rows) => r == Ok::<RowBatch, DriveError>(rows),
            Err(reason) => r == Err::<RowBatch, DriveError>(DriveError::CodecDecode { reason }),
        },
{
    match decoded {
        Ok(rows) => Ok(rows),
        Err(reason) => Err(DriveError::CodecDecode { reason }),
    }
}

// ---- searches --------------------------------------------------------------------------------

/// A character within a quoted term of a search.
pub open spec fn q_escaped_char(c: char) -> Seq<char> {
    if c == '\\' {
        seq!['\\', '\\']
    } else if c == '\'' {
        seq!['\\', '\'']
    } else {
        seq![c]
    }
}

/// A text within a quoted term of a search.
pub open spec fn q_escaped(s: Seq<char>) -> Seq<char> {
    replaced(s, |c: char| q_escaped_char(c))
}

/// A text within a quoted term of a search: each backslash and each quote behind a backslash.
pub fn q_escape(value: &str) -> (r: String)
    ensures
        r@ == q_escaped(value@),
{
    let v: Vec<char> = chars_of(value);
    let ghost f = |c: char| q_escaped_char(c);
    let mut r: String = String::new();
    let mut i: usize = 0;
    while i < v.len()
        invariant
            i <= v.len(),
            f == |c: char| q_escaped_char(c),
            r@ == replaced(v@.take(i as int), f),
        decreases v.len() - i,
    {
        proof {
            lemma_replaced_take(v@, f, i as int);
        }
        if v[i] == '\\' || v[i] == '\'' {
            r.push('\\');
        }
        r.push(v[i]);
        i = i + 1;
        assert(r@ =~= replaced(v@.take(i as int), f));
    }
    assert(v@.take(i as int) =~= value@);
    r
}

/// The search for the children called `name` of the folder `parent`.
pub open spec fn child_search(name: Seq<char>, parent: Seq<char>) -> Seq<char> {
    "name = '"@ + q_escaped(name) + "' and '"@ + q_escaped(parent)
        + "' in parents and trashed = false"@
}

/// The search for the children called `name` of the folder `parent`.
pub fn child_query(name: &str, parent: &str) -> (r: String)
    ensures
        r@ == child_search(name@, parent@),
{
    let mut r: String = "name = '".to_owned();
    r.append(q_escape(name).as_str());
    r.append("' and '");
    r.append(q_escape(parent).as_str());
    r.append("' in parents and trashed = false");
    r
}

/// Whether a predicate asks about the trash itself.
pub open spec fn asks_for_trash(predicate: Option<&Predicate>) -> bool {
    match predicate {
        Some(p) => speaks_of(p@, "trashed"@),
        None => false,
    }
}

/// A listing's search made from the one that was pushed down: without the trash, unless the
/// predicate asks about it.
pub open spec fn without_trash(pushed: Seq<char>, asked: bool) -> Seq<char> {
    if asked {
        pushed
    } else if pushed.len() == 0 {
        "trashed = false"@
    } else {
        pushed + " and trashed = false"@
    }
}

/// A listing's search made from the one that was pushed down for the predicate.
pub fn listing_query(pushed: String, predicate: Option<&Predicate>) -> (r: String)
    ensures
        r@ == without_trash(pushed@, asks_for_trash(predicate)),
{
    let asked: bool = match predicate {
        Some(p) => p.speaks_of("trashed"),
        None => false,
    };
    if asked {
        pushed
    } else if pushed.as_str().is_empty() {
        "trashed = false".to_owned()
    } else {
        let mut r: String = pushed;
        r.append(" and trashed = false");
        r
    }
}

// ---- listings --------------------------------------------------------------------------------

/// The most files that a listing asks for.
pub const READ_CAP: u32 = 1_000;

/// The most files that a lookup asks for.
pub const LOOKUP_CAP: u32 = 2;

/// The id of the root of the user's own files.
pub const MY_DRIVE_ROOT: &'static str = "root";

/// The segment for the user's own files.
pub const MY_SEGMENT: &'static str = "my";

/// The segment for the shared drives.
pub const SHARED_SEGMENT: &'static str = "shared";

/// The media type of a folder.
pub const FOLDER_MIME: &'static str = "application/vnd.google-apps.folder";

/// One page of files.
#[derive(Debug, Clone, PartialEq, Eq)]
pub struct FilePage {
    /// The files.
    pub files: Vec<FileMeta>,
    /// What asks for the next page, if there is one.
    pub next_page_token: Option<String>,
}

/// A shared drive.
#[derive(Debug, Clone, PartialEq, Eq)]
pub struct SharedDrive {
    /// The drive's id.
    pub id: String,
    /// Its name.
    pub name: String,
}

/// What a [`SharedDrive`] holds.
#[verifier::ext_equal]
pub ghost struct SharedDriveView {
    pub id: Seq<char>,
    pub name: Seq<char>,
}

impl View for SharedDrive {
    type V = SharedDriveView;

    open spec fn view(&self) -> SharedDriveView {
        SharedDriveView { id: self.id@, name: self.name@ }
    }
}

/// What the drives of a list hold.
pub open spec fn drive_views(drives: Seq<SharedDrive>) -> Seq<SharedDriveView> {
    drives.map_values(|d: SharedDrive| d@)
}

/// What asks the service.
pub trait GDriveClient {
    /// The files that a search finds, in one shared drive where one is given.
    fn list_files(&self, query: &str, drive_id: Option<&str>, limit: Option<u32>) -> Result<
        FilePage,
        DriveError,
    >;

    /// The shared drives.
    fn list_drives(&self) -> Result<Vec<SharedDrive>, DriveError>;

    /// The bytes that a plan fetches.
    fn fetch(&self, plan: &ReadPlan) -> Result<Vec<u8>, DriveError>;
}

/// What pushes the predicate of a read down.
pub trait FolderSearch {
    /// The search for the children of a folder that the predicate allows.
    fn query(&self, parent_id: &str, predicate: Option<&Predicate>) -> String;
}

/// What knows the documents of the office suite.
pub trait Exports {
    /// Whether a file is a document of the office suite.
    fn is_native(&self, file: &FileMeta) -> bool;

    /// The target that a token of an address asks for.
    fn asked_target(&self, token: &str) -> ExportTarget;

    /// The target for documents of this media type, where there is one.
    fn usual_target(&self, mime: &str) -> Option<ExportTarget>;
}

/// In which form an address asks for a file.
#[derive(Debug, Clone, PartialEq, Eq, Default)]
pub struct FileForm {
    /// The revision, where the address names one.
    pub revision: Option<String>,
    /// The token of what to export to, where the address has one.
    pub export: Option<String>,
}

/// What a path of the drive addresses.
#[derive(Debug, Clone, PartialEq, Eq)]
#[non_exhaustive]
pub enum DrivePath {
    /// The two corpora.
    Root,
    /// The shared drives.
    SharedRoot,
    /// The root of the user's own files.
    MyRoot,
    /// A folder or a file among the user's own files.
    My { segments: Vec<String>, form: FileForm },
    /// A folder or a file within a shared drive.
    Shared { drive: String, segments: Vec<String>, form: FileForm },
    /// A folder by its id.
    ById { id: String },
}

/// `r` is what the client answered to this search.
pub open spec fn listed<C: GDriveClient>(
    client: C,
    query: Seq<char>,
    drive: Option<Seq<char>>,
    cap: u32,
    r: Result<FilePage, DriveError>,
) -> bool {
    exists|q: &str, d: Option<&str>|
        q@ == query && opt_str(d) == drive && #[trigger] call_ensures(
            C::list_files,
            (&client, q, d, Some(cap)),
            r,
        )
}

/// `r` is what the client answered when asked for the shared drives.
pub open spec fn drives_listed<C: GDriveClient>(
    client: C,
    r: Result<Vec<SharedDrive>, DriveError>,
) -> bool {
    call_ensures(C::list_drives, (&client,), r)
}

/// `r` is the search that was pushed down for this folder.
pub open spec fn pushed<Q: FolderSearch>(
    search: Q,
    parent: Seq<char>,
    predicate: Option<&Predicate>,
    r: Seq<char>,
) -> bool {
    exists|p: &str, s: String|
        p@ == parent && s@ == r && #[trigger] call_ensures(Q::query, (&search, p, predicate), s)
}

/// The error for a segment that names nothing.
pub open spec fn no_child(path: Seq<char>, segment: Seq<char>) -> DriveErrorView {
    DriveErrorView::NotFound {
        path,
        segment,
        reason: "no child of this name under the parent folder"@,
    }
}

/// What one step of a walk goes on with: the first file that the lookup found.
pub open spec fn step_result(
    page: Result<FilePage, DriveError>,
    path: Seq<char>,
    segment: Seq<char>,
) -> Result<FileMeta, DriveErrorView> {
    match page {
        Err(e) => Err(e@),
        Ok(p) => if p.files@.len() == 0 {
            Err(no_child(path, segment))
        } else {
            Ok(p.files@[0])
        },
    }
}

/// The result of a lookup as plain texts.
pub open spec fn id_view(r: Result<String, DriveError>) -> Result<Seq<char>, DriveErrorView> {
    match r {
        Ok(id) => Ok(id@),
        Err(e) => Err(e@),
    }
}

/// What one step of a walk goes on with, from what the client answered to its lookup.
pub fn walk_step(page: Result<FilePage, DriveError>, path: &str, segment: &str) -> (r: Result<
    FileMeta,
    DriveError,
>)
    ensures
        match r {
            Ok(f) => step_result(page, path@, segment@) == Ok::<FileMeta, DriveErrorView>(f),
            Err(e) => step_result(page, path@, segment@) == Err::<FileMeta, DriveErrorView>(e@),
        },
{
    match page {
        Err(e) => Err(e),
        Ok(p) => {
            let mut files: Vec<FileMeta> = p.files;
            if files.len() == 0 {
                Err(
                    DriveError::NotFound {
                        path: path.to_owned(),
                        segment: segment.to_owned(),
                        reason: "no child of this name under the parent folder".to_owned(),
                    },
                )
            } else {
                Ok(files.remove(0))
            }
        },
    }
}

/// Where a walk stands.
#[derive(Debug, Clone, PartialEq, Eq)]
pub struct Place {
    /// The id there.
    pub id: String,
    /// The file there; none where the walk started from a root.
    pub file: Option<FileMeta>,
}

/// What a [`Place`] holds.
pub ghost struct PlaceView {
    pub id: Seq<char>,
    pub file: Option<FileMeta>,
}

impl View for Place {
    type V = PlaceView;

    open spec fn view(&self) -> PlaceView {
        PlaceView { id: self.id@, file: self.file }
    }
}

/// The place of a root.
pub open spec fn root_place(id: Seq<char>) -> PlaceView {
    PlaceView { id, file: None }
}

/// The place of a file that was found.
pub open spec fn file_place(file: FileMeta) -> PlaceView {
    PlaceView { id: file.id@, file: Some(file) }
}

/// The result of a walk as plain values.
pub open spec fn place_view(r: Result<Place, DriveError>) -> Result<PlaceView, DriveErrorView> {
    match r {
        Ok(p) => Ok(p@),
        Err(e) => Err(e@),
    }
}

/// `r` is where the client's answers lead a walk of the names `segments` from `start`: each name is
/// looked up under what the one before it led to, and the first name that leads nowhere ends the
/// walk.
pub open spec fn walked<C: GDriveClient>(
    client: C,
    start: PlaceView,
    drive: Option<Seq<char>>,
    segments: Seq<Seq<char>>,
    path: Seq<char>,
    r: Result<PlaceView, DriveErrorView>,
) -> bool
    decreases segments.len(),
{
    if segments.len() == 0 {
        r == Ok::<PlaceView, DriveErrorView>(start)
    } else {
        exists|page: Result<FilePage, DriveError>| #[trigger]
            listed(client, child_search(segments[0], start.id), drive, LOOKUP_CAP, page)
                && match step_result(page, path, segments[0]) {
                Err(e) => r == Err::<PlaceView, DriveErrorView>(e),
                Ok(next) => walked(
                    client,
                    file_place(next),
                    drive,
                    segments.drop_first(),
                    path,
                    r,
                ),
            }
    }
}

/// Walks the names from a root to what the last one names.
///
/// # Errors
/// The client's error, or [`DriveError::NotFound`] with the first name that leads nowhere.
pub fn resolve_folder<C: GDriveClient>(
    client: &C,
    start_id: &str,
    drive_id: Option<&str>,
    segments: &Vec<String>,
    path: &str,
) -> (r: Result<Place, DriveError>)
    ensures
        walked(
            *client,
            root_place(start_id@),
            opt_str(drive_id),
            views(segments@),
            path@,
            place_view(r),
        ),
{
    assert(views(segments@).skip(0) =~= views(segments@));
    let start: Place = Place { id: start_id.to_owned(), file: None };
    resolve_from(client, start, drive_id, segments, 0, path)
}

fn resolve_from<C: GDriveClient>(
    client: &C,
    current: Place,
    drive_id: Option<&str>,
    segments: &Vec<String>,
    i: usize,
    path: &str,
) -> (r: Result<Place, DriveError>)
    requires
        i <= segments.len(),
    ensures
        walked(
            *client,
            current@,
            opt_str(drive_id),
            views(segments@).skip(i as int),
            path@,
            place_view(r),
        ),
    decreases segments.len() - i,
{
    let ghost rest = views(segments@).skip(i as int);
    let ghost at = current@;
    if i == segments.len() {
        return Ok(current);
    }
    let segment: &str = segments[i].as_str();
    let query: String = child_query(segment, current.id.as_str());
    let page: Result<FilePage, DriveError> = client.list_files(
        query.as_str(),
        drive_id,
        Some(LOOKUP_CAP),
    );
    let ghost answer = page;
    assert(rest[0] == segment@);
    assert(at.id == current.id@);
    assert(listed(
        *client,
        child_search(rest[0], at.id),
        opt_str(drive_id),
        LOOKUP_CAP,
        answer,
    ));
    match walk_step(page, path, segment) {
        Err(e) => Err(e),
        Ok(found) => {
            assert(rest.drop_first() =~= views(segments@).skip(i + 1));
            let ghost there = file_place(found);
            let next: Place = Place { id: found.id.clone(), file: Some(found) };
            assert(next@ == there);
            resolve_from(client, next, drive_id, segments, i + 1, path)
        },
    }
}

/// The id of the first drive with this name.
pub open spec fn drive_named(drives: Seq<SharedDriveView>, name: Seq<char>) -> Option<Seq<char>>
    decreases drives.len(),
{
    if drives.len() == 0 {
        None
    } else if drives[0].name == name {
        Some(drives[0].id)
    } else {
        drive_named(drives.drop_first(), name)
    }
}

/// The id of the shared drive with this name, from what the client answered.
pub open spec fn drive_result(
    drives: Result<Vec<SharedDrive>, DriveError>,
    name: Seq<char>,
    path: Seq<char>,
) -> Result<Seq<char>, DriveErrorView> {
    match drives {
        Err(e) => Err(e@),
        Ok(ds) => match drive_named(drive_views(ds@), name) {
            Some(id) => Ok(id),
            None => Err(
                DriveErrorView::NotFound {
                    path,
                    segment: name,
                    reason: "no Shared Drive of this name"@,
                },
            ),
        },
    }
}

/// The id of the shared drive with this name, from what the client answered.
pub fn pick_drive(drives: Result<Vec<SharedDrive>, DriveError>, name: &str, path: &str) -> (r:
    Result<String, DriveError>)
    ensures
        id_view(r) == drive_result(drives, name@, path@),
{
    let ds: Vec<SharedDrive> = match drives {
        Ok(ds) => ds,
        Err(e) => return Err(e),
    };
    let mut i: usize = 0;
    assert(drive_views(ds@).skip(0) =~= drive_views(ds@));
    while i < ds.len()
        invariant
            i <= ds.len(),
            drives == Ok::<Vec<SharedDrive>, DriveError>(ds),
            drive_named(drive_views(ds@), name@) == drive_named(
                drive_views(ds@).skip(i as int),
                name@,
            ),
        decreases ds.len() - i,
    {
        let ghost rest = drive_views(ds@).skip(i as int);
        assert(rest[0] == ds@[i as int]@);
        if same(ds[i].name.as_str(), name) {
            return Ok(ds[i].id.clone());
        }
        assert(rest.drop_first() =~= drive_views(ds@).skip(i + 1));
        i = i + 1;
    }
    Err(
        DriveError::NotFound {
            path: path.to_owned(),
            segment: name.to_owned(),
            reason: "no Shared Drive of this name".to_owned(),
        },
    )
}

/// The id of the shared drive with this name.
///
/// # Errors
/// The client's error, or [`DriveError::NotFound`] where no drive has the name.
pub fn resolve_shared_drive<C: GDriveClient>(client: &C, name: &str, path: &str) -> (r: Result<
    String,
    DriveError,
>)
    ensures
        exists|drives: Result<Vec<SharedDrive>, DriveError>| #[trigger]
            drives_listed(*client, drives) && id_view(r) == drive_result(drives, name@, path@),
{
    let drives: Result<Vec<SharedDrive>, DriveError> = client.list_drives();
    assert(drives_listed(*client, drives));
    pick_drive(drives, name, path)
}

/// One row of a read.
#[derive(Debug, Clone, PartialEq, Eq)]
pub struct FileRow {
    /// The file.
    pub file: FileMeta,
    /// Its bytes, in the read of a single file.
    pub content: Option<Vec<u8>>,
}

/// What a [`FileRow`] holds.
#[verifier::ext_equal]
pub ghost struct FileRowView {
    pub file: FileView,
    pub content: Option<Seq<u8>>,
}

impl View for FileRow {
    type V = FileRowView;

    open spec fn view(&self) -> FileRowView {
        FileRowView {
            file: self.file@,
            content: match self.content {
                Some(bytes) => Some(bytes@),
                None => None,
            },
        }
    }
}

/// The rows of a listing: each file, without its content.
pub open spec fn listing_rows(files: Seq<FileView>) -> Seq<FileRowView> {
    files.map_values(|f: FileView| FileRowView { file: f, content: None })
}

/// The rows of a listing: each file, without its content.
fn without_content(files: Vec<FileMeta>) -> (r: Vec<FileRow>)
    ensures
        row_views(r@) == listing_rows(file_views(files@)),
{
    let ghost given = files@;
    let mut files: Vec<FileMeta> = files;
    let mut r: Vec<FileRow> = Vec::new();
    while files.len() > 0
        invariant
            r@.len() + files@.len() == given.len(),
            forall|j: int| 0 <= j < files@.len() ==> files@[j] == given[r@.len() + j],
            forall|j: int|
                0 <= j < r@.len() ==> (#[trigger] r@[j])@ == (FileRowView {
                    file: given[j]@,
                    content: None,
                }),
        decreases files.len(),
    {
        let file: FileMeta = files.remove(0);
        r.push(FileRow { file, content: None });
    }
    assert(row_views(r@) =~= listing_rows(file_views(given)));
    r
}

/// What the rows of a read hold.
pub open spec fn row_views(rows: Seq<FileRow>) -> Seq<FileRowView> {
    rows.map_values(|r: FileRow| r@)
}

/// A folder that is listed without being a file.
pub open spec fn folder_view(id: Seq<char>, name: Seq<char>, drive_id: Seq<char>) -> FileView {
    FileView {
        id,
        name,
        mime_type: FOLDER_MIME@,
        parents: Seq::empty(),
        size: 0,
        modified_time: 0,
        md5: ""@,
        rev: ""@,
        drive_id,
        trashed: false,
    }
}

/// A folder that is listed without being a file.
pub fn folder_file(id: &str, name: &str, drive_id: String) -> (r: FileMeta)
    ensures
        r@ == folder_view(id@, name@, drive_id@),
{
    let parents: Vec<String> = Vec::new();
    assert(views(parents@) =~= Seq::empty());
    FileMeta {
        id: id.to_owned(),
        name: name.to_owned(),
        mime_type: FOLDER_MIME.to_owned(),
        parents,
        size: 0,
        modified_time: 0,
        md5: "".to_owned(),
        rev: "".to_owned(),
        drive_id,
        trashed: false,
    }
}

/// The two corpora, as folders.
pub fn corpora_rows() -> (r: Vec<FileMeta>)
    ensures
        file_views(r@) == seq![
            folder_view(MY_SEGMENT@, MY_SEGMENT@, ""@),
            folder_view(SHARED_SEGMENT@, SHARED_SEGMENT@, ""@),
        ],
{
    let mut r: Vec<FileMeta> = Vec::new();
    r.push(folder_file(MY_SEGMENT, MY_SEGMENT, "".to_owned()));
    r.push(folder_file(SHARED_SEGMENT, SHARED_SEGMENT, "".to_owned()));
    assert(file_views(r@) =~= seq![
        folder_view(MY_SEGMENT@, MY_SEGMENT@, ""@),
        folder_view(SHARED_SEGMENT@, SHARED_SEGMENT@, ""@),
    ]);
    r
}

/// The shared drives as folders.
pub open spec fn drive_folders(drives: Seq<SharedDriveView>) -> Seq<FileView> {
    drives.map_values(|d: SharedDriveView| folder_view(d.id, d.name, d.id))
}

/// The shared drives as folders.
pub fn shared_drive_rows(drives: &Vec<SharedDrive>) -> (r: Vec<FileMeta>)
    ensures
        file_views(r@) == drive_folders(drive_views(drives@)),
{
    let mut r: Vec<FileMeta> = Vec::new();
    let mut i: usize = 0;
    while i < drives.len()
        invariant
            i <= drives.len(),
            r@.len() == i,
            forall|j: int|
                0 <= j < i ==> (#[trigger] r@[j])@ == folder_view(
                    drives@[j].id@,
                    drives@[j].name@,
                    drives@[j].id@,
                ),
        decreases drives.len() - i,
    {
        let d: &SharedDrive = &drives[i];
        r.push(folder_file(d.id.as_str(), d.name.as_str(), d.id.clone()));
        i = i + 1;
    }
    assert(file_views(r@) =~= drive_folders(drive_views(drives@)));
    r
}

/// The result of a read as plain values.
pub open spec fn rows_view(r: Result<Vec<FileRow>, DriveError>) -> Result<
    Seq<FileRowView>,
    DriveErrorView,
> {
    match r {
        Ok(rows) => Ok(row_views(rows@)),
        Err(e) => Err(e@),
    }
}

/// What a listing shows, from what the client answered.
pub open spec fn page_result(page: Result<FilePage, DriveError>) -> Result<
    Seq<FileRowView>,
    DriveErrorView,
> {
    match page {
        Ok(p) => Ok(listing_rows(file_views(p.files@))),
        Err(e) => Err(e@),
    }
}

/// `r` is what the children of a folder come to: the search that was pushed down for the folder,
/// without the trash unless the predicate asks about it, as the client answered it.
pub open spec fn children_listed<C: GDriveClient, Q: FolderSearch>(
    client: C,
    search: Q,
    parent: Seq<char>,
    drive: Option<Seq<char>>,
    predicate: Option<&Predicate>,
    r: Result<Seq<FileRowView>, DriveErrorView>,
) -> bool {
    exists|q: Seq<char>, page: Result<FilePage, DriveError>| #[trigger]
        pushed(search, parent, predicate, q) && #[trigger] listed(
            client,
            without_trash(q, asks_for_trash(predicate)),
            drive,
            READ_CAP,
            page,
        ) && r == page_result(page)
}

/// The children of a folder.
fn list_children<C: GDriveClient, Q: FolderSearch>(
    client: &C,
    search: &Q,
    parent_id: &str,
    drive_id: Option<&str>,
    predicate: Option<&Predicate>,
) -> (r: Result<Vec<FileRow>, DriveError>)
    ensures
        children_listed(
            *client,
            *search,
            parent_id@,
            opt_str(drive_id),
            predicate,
            rows_view(r),
        ),
{
    let q: String = search.query(parent_id, predicate);
    let ghost asked = q@;
    assert(pushed(*search, parent_id@, predicate, asked));
    let query: String = listing_query(q, predicate);
    let page: Result<FilePage, DriveError> = client.list_files(
        query.as_str(),
        drive_id,
        Some(READ_CAP),
    );
    let ghost answer = page;
    assert(listed(
        *client,
        without_trash(asked, asks_for_trash(predicate)),
        opt_str(drive_id),
        READ_CAP,
        answer,
    ));
    match page {
        Ok(p) => Ok(without_content(p.files)),
        Err(e) => Err(e),
    }
}

// ---- single files ----------------------------------------------------------------------------

/// Whether a file is a folder.
pub open spec fn is_folder(file: FileMeta) -> bool {
    file.mime_type@ == FOLDER_MIME@
}

/// What a single file shows, from what the client answered when asked for its content: one row,
/// with the content.
pub open spec fn file_result(file: FileMeta, content: Result<Vec<u8>, DriveError>) -> Result<
    Seq<FileRowView>,
    DriveErrorView,
> {
    match content {
        Ok(bytes) => Ok(seq![FileRowView { file: file@, content: Some(bytes@) }]),
        Err(e) => Err(e@),
    }
}

/// The row of a single file, from what the client answered when asked for its content.
pub fn file_row(file: FileMeta, content: Result<Vec<u8>, DriveError>) -> (r: Result<
    Vec<FileRow>,
    DriveError,
>)
    ensures
        rows_view(r) == file_result(file, content),
{
    match content {
        Ok(bytes) => {
            let mut rows: Vec<FileRow> = Vec::new();
            rows.push(FileRow { file, content: Some(bytes) });
            assert(row_views(rows@) =~= seq![
                FileRowView { file: file@, content: Some(bytes@) },
            ]);
            Ok(rows)
        },
        Err(e) => Err(e),
    }
}

/// `r` is what the client answered to the plan.
pub open spec fn fetched<C: GDriveClient>(
    client: C,
    plan: PlanView,
    r: Result<Vec<u8>, DriveError>,
) -> bool {
    exists|p: ReadPlan| p@ == plan && #[trigger] call_ensures(C::fetch, (&client, &p), r)
}

/// `r` is the target that the address asks for.
pub open spec fn target_asked<X: Exports>(
    exports: X,
    form: FileForm,
    r: Option<ExportTarget>,
) -> bool {
    match form.export {
        Some(token) => r matches Some(target) && exists|t: &str|
            t@ == token@ && #[trigger] call_ensures(X::asked_target, (&exports, t), target),
        None => r is None,
    }
}

/// `r` is the target for documents of the type of this file.
pub open spec fn target_usual<X: Exports>(
    exports: X,
    file: FileMeta,
    r: Option<ExportTarget>,
) -> bool {
    exists|mime: &str|
        mime@ == file.mime_type@ && #[trigger] call_ensures(X::usual_target, (&exports, mime), r)
}

/// `r` is what reading a single file comes to: its content is fetched as planned, and shown with it
/// in one row.
pub open spec fn file_read<C: GDriveClient, X: Exports>(
    client: C,
    exports: X,
    file: FileMeta,
    form: FileForm,
    r: Result<Seq<FileRowView>, DriveErrorView>,
) -> bool {
    exists|native: bool, asked: Option<ExportTarget>, usual: Option<ExportTarget>|
        #![trigger call_ensures(X::is_native, (&exports, &file), native), target_asked(exports, form, asked), target_usual(exports, file, usual)]
        {
            &&& call_ensures(X::is_native, (&exports, &file), native)
            &&& target_asked(exports, form, asked)
            &&& target_usual(exports, file, usual)
            &&& match planned(
                file@,
                native,
                opt_view(form.revision),
                target_view(asked),
                target_view(usual),
            ) {
                Err(e) => r == Err::<Seq<FileRowView>, DriveErrorView>(e),
                Ok(plan) => exists|content: Result<Vec<u8>, DriveError>| #[trigger]
                    fetched(client, plan, content) && r == file_result(file, content),
            }
        }
}

/// Reads a single file.
fn read_file<C: GDriveClient, X: Exports>(
    client: &C,
    exports: &X,
    file: FileMeta,
    form: &FileForm,
) -> (r: Result<Vec<FileRow>, DriveError>)
    ensures
        file_read(*client, *exports, file, *form, rows_view(r)),
{
    let native: bool = exports.is_native(&file);
    assert(call_ensures(X::is_native, (exports, &file), native));
    let asked: Option<ExportTarget> = match &form.export {
        Some(token) => {
            let t: &str = token.as_str();
            let target: ExportTarget = exports.asked_target(t);
            assert(call_ensures(X::asked_target, (exports, t), target));
            Some(target)
        },
        None => None,
    };
    assert(target_asked(*exports, *form, asked));
    let mime: &str = file.mime_type.as_str();
    let usual: Option<ExportTarget> = exports.usual_target(mime);
    assert(call_ensures(X::usual_target, (exports, mime), usual));
    assert(target_usual(*exports, file, usual));
    let revision: Option<&str> = match &form.revision {
        Some(s) => Some(s.as_str()),
        None => None,
    };
    let ghost how = planned(
        file@,
        native,
        opt_view(form.revision),
        target_view(asked),
        target_view(usual),
    );
    match plan_read(&file, native, revision, asked, usual) {
        Ok(plan) => {
            let content: Result<Vec<u8>, DriveError> = client.fetch(&plan);
            let ghost answer = content;
            assert(call_ensures(C::fetch, (client, &plan), answer));
            assert(how == Ok::<PlanView, DriveErrorView>(plan@));
            assert(fetched(*client, plan@, answer));
            file_row(file, content)
        },
        Err(e) => Err(e),
    }
}

/// `r` is what reading the address comes to.
pub open spec fn address_read<C: GDriveClient, Q: FolderSearch, X: Exports>(
    client: C,
    search: Q,
    exports: X,
    address: DrivePath,
    path: Seq<char>,
    predicate: Option<&Predicate>,
    r: Result<Seq<FileRowView>, DriveErrorView>,
) -> bool {
    match address {
        DrivePath::Root => r == Ok::<Seq<FileRowView>, DriveErrorView>(
            listing_rows(
                seq![
                    folder_view(MY_SEGMENT@, MY_SEGMENT@, ""@),
                    folder_view(SHARED_SEGMENT@, SHARED_SEGMENT@, ""@),
                ],
            ),
        ),
        DrivePath::SharedRoot => exists|drives: Result<Vec<SharedDrive>, DriveError>| #[trigger]
            drives_listed(client, drives) && r == match drives {
                Ok(ds) => Ok::<Seq<FileRowView>, DriveErrorView>(
                    listing_rows(drive_folders(drive_views(ds@))),
                ),
                Err(e) => Err::<Seq<FileRowView>, DriveErrorView>(e@),
            },
        DrivePath::MyRoot => children_listed(client, search, MY_DRIVE_ROOT@, None, predicate, r),
        DrivePath::My { segments, form } => folder_read(
            client,
            search,
            exports,
            MY_DRIVE_ROOT@,
            None,
            views(segments@),
            form,
            path,
            predicate,
            r,
        ),
        DrivePath::Shared { drive, segments, form } => exists|
            drives: Result<Vec<SharedDrive>, DriveError>,
        | #[trigger]
            drives_listed(client, drives) && match drive_result(drives, drive@, path) {
                Err(e) => r == Err::<Seq<FileRowView>, DriveErrorView>(e),
                Ok(id) => folder_read(
                    client,
                    search,
                    exports,
                    id,
                    Some(id),
                    views(segments@),
                    form,
                    path,
                    predicate,
                    r,
                ),
            },
        DrivePath::ById { id } => children_listed(client, search, id@, None, predicate, r),
    }
}

/// `r` is what walking to a folder or a file and reading it comes to: the children of a folder, the
/// one row of a file.
pub open spec fn folder_read<C: GDriveClient, Q: FolderSearch, X: Exports>(
    client: C,
    search: Q,
    exports: X,
    start: Seq<char>,
    drive: Option<Seq<char>>,
    segments: Seq<Seq<char>>,
    form: FileForm,
    path: Seq<char>,
    predicate: Option<&Predicate>,
    r: Result<Seq<FileRowView>, DriveErrorView>,
) -> bool {
    exists|end: Result<PlaceView, DriveErrorView>| #[trigger]
        walked(client, root_place(start), drive, segments, path, end) && match end {
            Err(e) => r == Err::<Seq<FileRowView>, DriveErrorView>(e),
            Ok(place) => match place.file {
                Some(file) => if is_folder(file) {
                    children_listed(client, search, place.id, drive, predicate, r)
                } else {
                    file_read(client, exports, file, form, r)
                },
                None => children_listed(client, search, place.id, drive, predicate, r),
            },
        }
}

fn read_folder<C: GDriveClient, Q: FolderSearch, X: Exports>(
    client: &C,
    search: &Q,
    exports: &X,
    start_id: &str,
    drive_id: Option<&str>,
    segments: &Vec<String>,
    form: &FileForm,
    path: &str,
    predicate: Option<&Predicate>,
) -> (r: Result<Vec<FileRow>, DriveError>)
    ensures
        folder_read(
            *client,
            *search,
            *exports,
            start_id@,
            opt_str(drive_id),
            views(segments@),
            *form,
            path@,
            predicate,
            rows_view(r),
        ),
{
    let end: Result<Place, DriveError> = resolve_folder(
        client,
        start_id,
        drive_id,
        segments,
        path,
    );
    let ghost reached = place_view(end);
    assert(walked(
        *client,
        root_place(start_id@),
        opt_str(drive_id),
        views(segments@),
        path@,
        reached,
    ));
    let place: Place = match end {
        Ok(place) => place,
        Err(e) => return Err(e),
    };
    match place.file {
        Some(file) => {
            if same(file.mime_type.as_str(), FOLDER_MIME) {
                list_children(client, search, place.id.as_str(), drive_id, predicate)
            } else {
                read_file(client, exports, file, form)
            }
        },
        None => list_children(client, search, place.id.as_str(), drive_id, predicate),
    }
}

/// Reads what a path addresses: the corpora, the shared drives, the files in a folder, or a single
/// file with its content. `address` is what parsing the path gave. The predicate narrows the search
/// of a folder; what the search cannot say the engine filters by.
///
/// # Errors
/// The error of parsing the path, the client's error, [`DriveError::NotFound`] where a name of the
/// path leads nowhere, or [`DriveError::NoExportTarget`] for a single document that cannot be
/// exported.
pub fn read_rows<C: GDriveClient, Q: FolderSearch, X: Exports>(
    client: &C,
    search: &Q,
    exports: &X,
    address: Result<DrivePath, DriveError>,
    path: &str,
    predicate: Option<&Predicate>,
) -> (r: Result<Vec<FileRow>, DriveError>)
    ensures
        match address {
            Ok(a) => address_read(*client, *search, *exports, a, path@, predicate, rows_view(r)),
            Err(e) => r == Err::<Vec<FileRow>, DriveError>(e),
        },
{
    let address: DrivePath = match address {
        Ok(a) => a,
        Err(e) => return Err(e),
    };
    match &address {
        DrivePath::Root => Ok(without_content(corpora_rows())),
        DrivePath::SharedRoot => {
            let drives: Result<Vec<SharedDrive>, DriveError> = client.list_drives();
            assert(drives_listed(*client, drives));
            match drives {
                Ok(ds) => Ok(without_content(shared_drive_rows(&ds))),
                Err(e) => Err(e),
            }
        },
        DrivePath::MyRoot => list_children(client, search, MY_DRIVE_ROOT, None, predicate),
        DrivePath::My { segments, form } => read_folder(
            client,
            search,
            exports,
            MY_DRIVE_ROOT,
            None,
            segments,
            form,
            path,
            predicate,
        ),
        DrivePath::Shared { drive, segments, form } => {
            match resolve_shared_drive(client, drive.as_str(), path) {
                Ok(id) => read_folder(
                    client,
                    search,
                    exports,
                    id.as_str(),
                    Some(id.as_str()),
                    segments,
                    form,
                    path,
                    predicate,
                ),
                Err(e) => Err(e),
            }
        },
        DrivePath::ById { id } => list_children(client, search, id.as_str(), None, predicate),
    }
}

// ---- laws ------------------------------------------------------------------------------------

/// The text that the inside of a quoted term denotes; `None` where a quote stands bare or the last
/// backslash escapes nothing.
pub open spec fn q_unescaped(t: Seq<char>) -> Option<Seq<char>>
    decreases t.len(),
{
    if t.len() == 0 {
        Some(Seq::empty())
    } else if t[0] == '\'' {
        None
    } else if t[0] != '\\' {
        match q_unescaped(t.subrange(1, t.len() as int)) {
            Some(rest) => Some(seq![t[0]] + rest),
            None => None,
        }
    } else if t.len() == 1 {
        None
    } else {
        match q_unescaped(t.subrange(2, t.len() as int)) {
            Some(rest) => Some(seq![t[1]] + rest),
            None => None,
        }
    }
}

/// A quoted term denotes the text that was put into it: no name can end the term early or change
/// what it asks for.
pub proof fn law_quoted_term_denotes_its_text(s: Seq<char>)
    ensures
        q_unescaped(q_escaped(s)) == Some(s),
    decreases s.len(),
{
    let f = |c: char| q_escaped_char(c);
    if s.len() > 0 {
        let rest = s.drop_first();
        law_quoted_term_denotes_its_text(rest);
        assert(s =~= seq![s[0]] + rest);
        lemma_replaced_concat(seq![s[0]], rest, f);
        assert(seq![s[0]].drop_last() =~= Seq::empty());
        assert(replaced(seq![s[0]], f) =~= f(s[0])) by {
            reveal_with_fuel(replaced, 2);
        }
        let head = q_escaped_char(s[0]);
        let t = q_escaped(s);
        assert(t =~= head + q_escaped(rest));
        assert(t.subrange(head.len() as int, t.len() as int) =~= q_escaped(rest));
        assert(t[0] == head[0]);
        if head.len() == 2 {
            assert(t[1] == head[1]);
        }
    }
}

/// A listing leaves the trash out, whatever words its search holds, unless the predicate compares
/// the column that tells of it; then the search is the one that was pushed down.
pub proof fn law_listing_leaves_the_trash_out(pushed: Seq<char>, predicate: Option<&Predicate>)
    ensures
        !asks_for_trash(predicate) ==> ends(
            without_trash(pushed, asks_for_trash(predicate)),
            "trashed = false"@,
        ),
        asks_for_trash(predicate) ==> without_trash(pushed, asks_for_trash(predicate)) == pushed,
{
    reveal_strlit("trashed = false");
    reveal_strlit(" and trashed = false");
    let t = without_trash(pushed, asks_for_trash(predicate));
    let w = "trashed = false"@;
    if !asks_for_trash(predicate) {
        assert(t.subrange(t.len() - w.len(), t.len() as int) =~= w);
    }
}

/// A walk of two lists of names is two walks: the second goes on where the first one ended, and does
/// not begin where the first one failed.
pub proof fn law_walks_join<C: GDriveClient>(
    client: C,
    start: PlaceView,
    drive: Option<Seq<char>>,
    first: Seq<Seq<char>>,
    second: Seq<Seq<char>>,
    path: Seq<char>,
    r: Result<PlaceView, DriveErrorView>,
)
    ensures
        walked(client, start, drive, first + second, path, r) <==> exists|
            middle: Result<PlaceView, DriveErrorView>,
        | #[trigger]
            walked(client, start, drive, first, path, middle) && match middle {
                Ok(place) => walked(client, place, drive, second, path, r),
                Err(e) => r == Err::<PlaceView, DriveErrorView>(e),
            },
    decreases first.len(),
{
    let whole = first + second;
    if first.len() == 0 {
        assert(whole =~= second);
        let middle = Ok::<PlaceView, DriveErrorView>(start);
        assert(walked(client, start, drive, first, path, middle));
    } else {
        let rest = first.drop_first();
        assert(whole[0] == first[0]);
        assert(whole.drop_first() =~= rest + second);
        let query = child_search(first[0], start.id);
        if walked(client, start, drive, whole, path, r) {
            let page = choose|page: Result<FilePage, DriveError>| #[trigger]
                listed(client, query, drive, LOOKUP_CAP, page) && match step_result(
                    page,
                    path,
                    first[0],
                ) {
                    Err(e) => r == Err::<PlaceView, DriveErrorView>(e),
                    Ok(next) => walked(client, file_place(next), drive, rest + second, path, r),
                };
            match step_result(page, path, first[0]) {
                Err(e) => {
                    assert(walked(client, start, drive, first, path, r));
                },
                Ok(next) => {
                    law_walks_join(client, file_place(next), drive, rest, second, path, r);
                    let middle = choose|middle: Result<PlaceView, DriveErrorView>| #[trigger]
                        walked(client, file_place(next), drive, rest, path, middle) && match middle {
                            Ok(place) => walked(client, place, drive, second, path, r),
                            Err(e) => r == Err::<PlaceView, DriveErrorView>(e),
                        };
                    assert(walked(client, start, drive, first, path, middle));
                },
            }
        }
        if exists|middle: Result<PlaceView, DriveErrorView>| #[trigger]
            walked(client, start, drive, first, path, middle) && match middle {
                Ok(place) => walked(client, place, drive, second, path, r),
                Err(e) => r == Err::<PlaceView, DriveErrorView>(e),
            } {
            let middle = choose|middle: Result<PlaceView, DriveErrorView>| #[trigger]
                walked(client, start, drive, first, path, middle) && match middle {
                    Ok(place) => walked(client, place, drive, second, path, r),
                    Err(e) => r == Err::<PlaceView, DriveErrorView>(e),
                };
            let page = choose|page: Result<FilePage, DriveError>| #[trigger]
                listed(client, query, drive, LOOKUP_CAP, page) && match step_result(
                    page,
                    path,
                    first[0],
                ) {
                    Err(e) => middle == Err::<PlaceView, DriveErrorView>(e),
                    Ok(next) => walked(client, file_place(next), drive, rest, path, middle),
                };
            if let Ok(next) = step_result(page, path, first[0]) {
                law_walks_join(client, file_place(next), drive, rest, second, path, r);
            }
            assert(walked(client, start, drive, whole, path, r));
        }
    }
}

/// A path to a file reads as that one file: where the walk can only end at a file that is no folder,
/// a read that succeeds shows a single row, of that file and with content.
pub proof fn law_a_file_reads_as_one_row<C: GDriveClient, Q: FolderSearch, X: Exports>(
    client: C,
    search: Q,
    exports: X,
    start: Seq<char>,
    drive: Option<Seq<char>>,
    segments: Seq<Seq<char>>,
    form: FileForm,
    path: Seq<char>,
    predicate: Option<&Predicate>,
    file: FileMeta,
    rows: Seq<FileRowView>,
)
    requires
        !is_folder(file),
        forall|end: Result<PlaceView, DriveErrorView>| #[trigger]
            walked(client, root_place(start), drive, segments, path, end) ==> end == Ok::<
                PlaceView,
                DriveErrorView,
            >(file_place(file)),
        folder_read(
            client,
            search,
            exports,
            start,
            drive,
            segments,
            form,
            path,
            predicate,
            Ok(rows),
        ),
    ensures
        rows.len() == 1,
        rows[0].file == file@,
        rows[0].content is Some,
{
}

/// Reading the root of the user's own files is reading a path among them with no names: the root and
/// every walk from it start at the same folder.
pub proof fn law_my_root_is_the_walk_of_no_names<C: GDriveClient, Q: FolderSearch, X: Exports>(
    client: C,
    search: Q,
    exports: X,
    none: Vec<String>,
    form: FileForm,
    path: Seq<char>,
    predicate: Option<&Predicate>,
    r: Result<Seq<FileRowView>, DriveErrorView>,
)
    requires
        none@.len() == 0,
    ensures
        address_read(client, search, exports, DrivePath::MyRoot, path, predicate, r)
            <==> address_read(
            client,
            search,
            exports,
            DrivePath::My { segments: none, form },
            path,
            predicate,
            r,
        ),
{
    let start = root_place(MY_DRIVE_ROOT@);
    assert(views(none@).len() == 0);
    assert(walked(client, start, None, views(none@), path, Ok::<PlaceView, DriveErrorView>(start)));
}

/// A folder that is found by its names is read like the same folder addressed by its id: what the
/// names lead to under the user's own files, listing it, is listing its id.
pub proof fn law_a_folder_reads_alike_by_names_and_by_id<
    C: GDriveClient,
    Q: FolderSearch,
    X: Exports,
>(
    client: C,
    search: Q,
    exports: X,
    segments: Vec<String>,
    form: FileForm,
    folder: FileMeta,
    path: Seq<char>,
    predicate: Option<&Predicate>,
    r: Result<Seq<FileRowView>, DriveErrorView>,
)
    requires
        is_folder(folder),
        forall|end: Result<PlaceView, DriveErrorView>| #[trigger]
            walked(client, root_place(MY_DRIVE_ROOT@), None, views(segments@), path, end) <==> end
                == Ok::<PlaceView, DriveErrorView>(file_place(folder)),
    ensures
        address_read(
            client,
            search,
            exports,
            DrivePath::My { segments, form },
            path,
            predicate,
            r,
        ) <==> address_read(
            client,
            search,
            exports,
            DrivePath::ById { id: folder.id },
            path,
            predicate,
            r,
        ),
{
    let end = Ok::<PlaceView, DriveErrorView>(file_place(folder));
    assert(walked(client, root_place(MY_DRIVE_ROOT@), None, views(segments@), path, end));
}

/// A step of a walk goes to the first file of that name, and what is missing is named: the path
/// that was read and the name that nothing was found under, for a file as for a shared drive. What
/// the client says is passed on.
pub proof fn law_what_is_missing_is_named(
    page: FilePage,
    drives: Vec<SharedDrive>,
    e: DriveError,
    name: Seq<char>,
    path: Seq<char>,
)
    ensures
        page.files@.len() > 0 ==> step_result(Ok(page), path, name) == Ok::<
            FileMeta,
            DriveErrorView,
        >(page.files@[0]),
        page.files@.len() == 0 ==> (step_result(Ok(page), path, name) matches Err(
            DriveErrorView::NotFound { path: p, segment: s, reason: _ },
        ) && p == path && s == name),
        (forall|k: int| 0 <= k < drives@.len() ==> (#[trigger] drives@[k]).name@ != name) ==> (
        drive_result(Ok(drives), name, path) matches Err(
            DriveErrorView::NotFound { path: p, segment: s, reason: _ },
        ) && p == path && s == name),
        step_result(Err(e), path, name) == Err::<FileMeta, DriveErrorView>(e@),
        drive_result(Err(e), name, path) == Err::<Seq<char>, DriveErrorView>(e@),
{
    law_a_drive_is_the_first_of_its_name(drive_views(drives@), name);
    if forall|k: int| 0 <= k < drives@.len() ==> (#[trigger] drives@[k]).name@ != name {
        if drive_named(drive_views(drives@), name) is Some {
            let k = choose|k: int|
                0 <= k < drive_views(drives@).len() && (#[trigger] drive_views(drives@)[k]).name
                    == name;
            assert(drives@[k].name@ == name);
        }
    }
}

/// A shared drive is found by its name: the first that has it, where any has.
pub proof fn law_a_drive_is_the_first_of_its_name(drives: Seq<SharedDriveView>, name: Seq<char>)
    ensures
        drive_named(drives, name) is Some <==> exists|k: int|
            0 <= k < drives.len() && (#[trigger] drives[k]).name == name,
        drive_named(drives, name) matches Some(id) ==> exists|k: int|
            {
                &&& 0 <= k < drives.len()
                &&& (#[trigger] drives[k]).name == name
                &&& drives[k].id == id
                &&& forall|j: int| 0 <= j < k ==> (#[trigger] drives[j]).name != name
            },
    decreases drives.len(),
{
    if drives.len() > 0 {
        let rest = drives.drop_first();
        if drives[0].name != name {
            law_a_drive_is_the_first_of_its_name(rest, name);
            assert(forall|j: int| 0 < j < drives.len() ==> drives[j] == rest[j - 1]);
            if drive_named(rest, name) is Some {
                let k = choose|k: int|
                    {
                        &&& 0 <= k < rest.len()
                        &&& (#[trigger] rest[k]).name == name
                        &&& rest[k].id == drive_named(rest, name)->Some_0
                        &&& forall|j: int| 0 <= j < k ==> (#[trigger] rest[j]).name != name
                    };
                assert(drives[k + 1] == rest[k]);
                assert forall|j: int| 0 <= j < k + 1 implies (#[trigger] drives[j]).name != name by {
                    if j > 0 {
                        assert(drives[j] == rest[j - 1]);
                    }
                }
            } else if exists|k: int| 0 <= k < drives.len() && (#[trigger] drives[k]).name == name {
                let k = choose|k: int|
                    0 <= k < drives.len() && (#[trigger] drives[k]).name == name;
                assert(rest[k - 1].name == name);
            }
        } else {
            assert(drives[0].name == name);
        }
    }
}

/// Whether a row is a folder that is only there to be opened: it has no content, no size, no time
/// and no parents, and is not in the trash.
pub open spec fn is_bare_folder(row: FileRowView) -> bool {
    &&& row.file.mime_type == "application/vnd.google-apps.folder"@
    &&& row.file.size == 0
    &&& row.file.modified_time == 0
    &&& row.file.parents.len() == 0
    &&& row.file.md5.len() == 0
    &&& row.file.rev.len() == 0
    &&& !row.file.trashed
    &&& row.content is None
}

/// The top of the tree and the list of shared drives hold bare folders, each with a name of its
/// own to go on by: `my` and `shared` at the top, the drives by their names below `shared`.
pub proof fn law_tops_hold_bare_folders<C: GDriveClient, Q: FolderSearch, X: Exports>(
    client: C,
    search: Q,
    exports: X,
    path: Seq<char>,
    predicate: Option<&Predicate>,
    rows: Seq<FileRowView>,
    k: int,
)
    requires
        0 <= k < rows.len(),
    ensures
        address_read(client, search, exports, DrivePath::Root, path, predicate, Ok(rows)) ==> {
            &&& is_bare_folder(rows[k])
            &&& rows.len() == 2
            &&& rows[k].file.drive_id.len() == 0
            &&& rows[k].file.id == rows[k].file.name
            &&& rows[k].file.name == if k == 0 {
                "my"@
            } else {
                "shared"@
            }
        },
        address_read(client, search, exports, DrivePath::SharedRoot, path, predicate, Ok(rows))
            ==> is_bare_folder(rows[k]) && rows[k].file.drive_id == rows[k].file.id,
{
    reveal_strlit("");
}

/// A listing has one row for each file of the page, in its order and as the client gave it, and
/// fetches no content.
pub proof fn law_a_listing_is_its_page(page: FilePage, k: int)
    requires
        0 <= k < page.files@.len(),
    ensures
        page_result(Ok(page)) is Ok,
        page_result(Ok(page))->Ok_0.len() == page.files@.len(),
        page_result(Ok(page))->Ok_0[k].file == page.files@[k]@,
        page_result(Ok(page))->Ok_0[k].content is None,
{
}

/// A shared drive is read by the very folder that the list of shared drives shows for it, and
/// within that drive.
pub proof fn law_a_shared_drive_reads_as_its_folder<
    C: GDriveClient,
    Q: FolderSearch,
    X: Exports,
>(
    client: C,
    search: Q,
    exports: X,
    drives: Vec<SharedDrive>,
    drive: String,
    none: Vec<String>,
    form: FileForm,
    path: Seq<char>,
    predicate: Option<&Predicate>,
    rows: Seq<FileRowView>,
    r: Result<Seq<FileRowView>, DriveErrorView>,
    k: int,
)
    requires
        forall|answer: Result<Vec<SharedDrive>, DriveError>| #[trigger]
            drives_listed(client, answer) <==> answer == Ok::<Vec<SharedDrive>, DriveError>(drives),
        none@.len() == 0,
        address_read(client, search, exports, DrivePath::SharedRoot, path, predicate, Ok(rows)),
        0 <= k < rows.len(),
        rows[k].file.name == drive@,
        forall|j: int| 0 <= j < k ==> (#[trigger] rows[j]).file.name != drive@,
    ensures
        address_read(
            client,
            search,
            exports,
            DrivePath::Shared { drive, segments: none, form },
            path,
            predicate,
            r,
        ) <==> children_listed(
            client,
            search,
            rows[k].file.id,
            Some(rows[k].file.drive_id),
            predicate,
            r,
        ),
{
    let views_of = drive_views(drives@);
    assert(drives_listed(client, Ok(drives)));
    assert(rows =~= listing_rows(drive_folders(views_of)));
    assert(rows[k].file == folder_view(views_of[k].id, views_of[k].name, views_of[k].id));
    law_a_drive_is_the_first_of_its_name(views_of, drive@);
    assert(views_of[k].name == drive@);
    let id = drive_named(views_of, drive@)->Some_0;
    let i = choose|i: int|
        {
            &&& 0 <= i < views_of.len()
            &&& (#[trigger] views_of[i]).name == drive@
            &&& views_of[i].id == id
            &&& forall|j: int| 0 <= j < i ==> (#[trigger] views_of[j]).name != drive@
        };
    if i < k {
        assert(rows[i].file.name == views_of[i].name);
    }
    assert(i == k);
    assert(views(none@) =~= Seq::<Seq<char>>::empty());
    let start = root_place(id);
    let end = Ok::<PlaceView, DriveErrorView>(start);
    assert(walked(client, start, Some(id), views(none@), path, end));
}

/// The content of a file is what was fetched for that very file: by its own id, and in a document
/// of Google's as an export.
pub proof fn law_content_is_fetched_by_the_files_id<C: GDriveClient, X: Exports>(
    client: C,
    exports: X,
    file: FileMeta,
    form: FileForm,
    rows: Seq<FileRowView>,
)
    requires
        file_read(client, exports, file, form, Ok(rows)),
    ensures
        exists|plan: PlanView, content: Vec<u8>|
            {
                &&& #[trigger] fetched(client, plan, Ok(content))
                &&& rows.len() == 1
                &&& rows[0].file == file@
                &&& rows[0].content == Some(content@)
                &&& match plan {
                    PlanView::Download { id, revision } => id == file.id@ && revision == opt_view(
                        form.revision,
                    ),
                    PlanView::Export { id, .. } => id == file.id@,
                }
            },
{
    let (native, asked, usual) = choose|
        native: bool,
        asked: Option<ExportTarget>,
        usual: Option<ExportTarget>,
    |
        #![trigger call_ensures(X::is_native, (&exports, &file), native), target_asked(exports, form, asked), target_usual(exports, file, usual)]
        {
            &&& call_ensures(X::is_native, (&exports, &file), native)
            &&& target_asked(exports, form, asked)
            &&& target_usual(exports, file, usual)
            &&& match planned(
                file@,
                native,
                opt_view(form.revision),
                target_view(asked),
                target_view(usual),
            ) {
                Err(e) => Ok::<Seq<FileRowView>, DriveErrorView>(rows) == Err::<
                    Seq<FileRowView>,
                    DriveErrorView,
                >(e),
                Ok(plan) => exists|content: Result<Vec<u8>, DriveError>| #[trigger]
                    fetched(client, plan, content) && Ok::<Seq<FileRowView>, DriveErrorView>(rows)
                        == file_result(file, content),
            }
        };
    let plan = planned(
        file@,
        native,
        opt_view(form.revision),
        target_view(asked),
        target_view(usual),
    )->Ok_0;
    let content = choose|content: Result<Vec<u8>, DriveError>| #[trigger]
        fetched(client, plan, content) && Ok::<Seq<FileRowView>, DriveErrorView>(rows)
            == file_result(file, content);
    assert(fetched(client, plan, Ok(content->Ok_0)));
}

/// An error's code says which kind it is, whatever it is about; the client's code is passed on.
pub proof fn law_codes_say_the_kind(e: DriveError)
    ensures
        match e {
            DriveError::InvalidPath { .. } => e.code_text() == "invalid_path"@,
            DriveError::NotFound { .. } => e.code_text() == "not_found"@,
            DriveError::NoExportTarget { .. } => e.code_text() == "no_export_target"@,
            DriveError::CodecDecode { .. } => e.code_text() == "codec_decode"@,
            DriveError::Client { code } => e.code_text() == code@,
        },
{
}

/// A file of the drive is downloaded as it is, at the revision asked for; a document of Google's
/// is exported, to the target asked for, else to the usual one, and refused where there is neither.
pub proof fn law_plans_follow_what_was_asked(
    file: FileView,
    revision: Option<Seq<char>>,
    asked: Option<TargetView>,
    usual: Option<TargetView>,
    other: Option<TargetView>,
)
    ensures
        planned(file, false, revision, asked, usual) == planned(file, false, revision, None, other),
        planned(file, false, revision, asked, usual) == Ok::<PlanView, DriveErrorView>(
            PlanView::Download { id: file.id, revision },
        ),
        asked is Some ==> planned(file, true, revision, asked, usual) == planned(
            file,
            true,
            None,
            asked,
            other,
        ),
        usual is Some ==> planned(file, true, revision, None, usual) == planned(
            file,
            true,
            None,
            usual,
            None,
        ),
        planned(file, true, revision, asked, usual) is Ok <==> asked is Some || usual is Some,
        asked matches Some(target) ==> planned(file, true, revision, asked, usual) == Ok::<
            PlanView,
            DriveErrorView,
        >(PlanView::Export { id: file.id, target }),
{
}

/// Reading the root of one's own drive is reading the drive by no names at all: whatever the one
/// gives, the other can, and both list what lies in the folder that is called `root`.
pub proof fn law_reading_my_root_is_reading_no_names<
    C: GDriveClient,
    Q: FolderSearch,
    X: Exports,
>(
    client: C,
    search: Q,
    exports: X,
    none: Vec<String>,
    form: FileForm,
    path: &str,
    predicate: Option<&Predicate>,
    by_root: Result<Vec<FileRow>, DriveError>,
    by_names: Result<Vec<FileRow>, DriveError>,
)
    requires
        none@.len() == 0,
        call_ensures(
            read_rows::<C, Q, X>,
            (&client, &search, &exports, Ok(DrivePath::MyRoot), path, predicate),
            by_root,
        ),
        call_ensures(
            read_rows::<C, Q, X>,
            (
                &client,
                &search,
                &exports,
                Ok(DrivePath::My { segments: none, form }),
                path,
                predicate,
            ),
            by_names,
        ),
    ensures
        address_read(
            client,
            search,
            exports,
            DrivePath::My { segments: none, form },
            path@,
            predicate,
            rows_view(by_root),
        ),
        children_listed(client, search, "root"@, None, predicate, rows_view(by_root)),
        children_listed(client, search, "root"@, None, predicate, rows_view(by_names)),
{
    law_my_root_is_the_walk_of_no_names(
        client,
        search,
        exports,
        none,
        form,
        path@,
        predicate,
        rows_view(by_root),
    );
    law_my_root_is_the_walk_of_no_names(
        client,
        search,
        exports,
        none,
        form,
        path@,
        predicate,
        rows_view(by_names),
    );
}

/// The trash is listed along only where the predicate speaks of it: then the search is what was
/// pushed, and else it says in words that nothing of the trash is meant.
pub proof fn law_the_trash_is_listed_on_request(pushed: Seq<char>, p: Predicate)
    ensures
        asks_for_trash(Some(&p)) <==> speaks_of(p@, "trashed"@),
        !asks_for_trash(None),
        speaks_of(p@, "trashed"@) ==> without_trash(pushed, asks_for_trash(Some(&p))) == pushed,
        without_trash(pushed, asks_for_trash(None)) == if pushed.len() == 0 {
            "trashed = false"@
        } else {
            pushed + " and "@ + "trashed = false"@
        },
{
    reveal_strlit(" and trashed = false");
    reveal_strlit(" and ");
    reveal_strlit("trashed = false");
    assert(" and "@ + "trashed = false"@ =~= " and trashed = false"@);
    assert(pushed + " and "@ + "trashed = false"@ =~= pushed + " and trashed = false"@);
}

} // verus!
