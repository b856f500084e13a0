//! The dashboard: a page for the browser and a thin bridge to the engine.
//!
//! The bridge can describe a path and preview a statement. It has no way to commit anything: every
//! mode but a preview is refused before a plan is even built. What it answers with comes from the
//! engine, which shows no secrets; a malformed request is answered without a word of it.
use crate::json::{encode_json, json_encoding, json_string, quote_json};
use crate::text::{cat3, cat5, same, stands_at, starts_with};
use serde_json::Value as JsonTree;
use vstd::prelude::*;
use vstd::utf8::*;

verus! {

/// The path of the page.
pub const DASHBOARD_ROOT: &'static str = "/";

/// What the paths of the assets begin with.
pub const ASSET_PREFIX: &'static str = "/assets/";

/// The path of the bridge's description.
pub const API_DESCRIBE: &'static str = "/api/describe";

/// The path of the bridge's preview.
pub const API_RUN: &'static str = "/api/run";

/// What the paths of the bridge begin with.
pub const API_PREFIX: &'static str = "/api/";

/// The method of a request.
#[derive(Debug, Clone, Copy, PartialEq, Eq, Structural)]
pub enum Method {
    Get,
    Post,
    /// Any other.
    Other,
}

/// A request of the browser.
#[derive(Debug, Clone, PartialEq, Eq)]
pub struct Request {
    pub method: Method,
    pub path: String,
    pub body: Vec<u8>,
}

/// A response to the browser.
#[derive(Debug, Clone, PartialEq, Eq)]
pub struct Response {
    pub status: u16,
    pub content_type: String,
    pub body: Vec<u8>,
    pub headers: Vec<(String, String)>,
}

/// What a [`Response`] holds.
#[verifier::ext_equal]
pub ghost struct ResponseView {
    pub status: u16,
    pub content_type: Seq<char>,
    pub body: Seq<u8>,
    pub headers: Seq<(Seq<char>, Seq<char>)>,
}

impl View for Response {
    type V = ResponseView;

    open spec fn view(&self) -> ResponseView {
        ResponseView {
            status: self.status,
            content_type: self.content_type@,
            body: self.body@,
            headers: self.headers@.map_values(|h: (String, String)| (h.0@, h.1@)),
        }
    }
}

/// An error of the engine. It holds no secret.
#[derive(Debug, Clone, PartialEq, Eq)]
pub struct EngineError {
    pub code: String,
    pub message: String,
}

impl EngineError {
    /// An error.
    #[must_use]
    pub fn new(code: &str, message: &str) -> (r: EngineError)
        ensures
            r.code@ == code@,
            r.message@ == message@,
    {
        EngineError { code: code.to_owned(), message: message.to_owned() }
    }
}

/// What the browser asks to run.
#[derive(Debug, Clone, PartialEq, Eq)]
pub struct RunRequest {
    /// The statement.
    pub statement: String,
    /// The mode; a preview where none is given.
    pub mode: Option<String>,
}

/// The files of the page.
#[derive(Debug, Clone, PartialEq, Eq)]
pub struct Assets {
    pub index_html: String,
    pub app_css: String,
    pub app_js: String,
}

/// What the bridge drives, and what reads the requests' bodies.
pub trait Engine {
    /// The path in the body of a request for a description; `None` for a body of another shape.
    fn decode_describe(&self, body: &Vec<u8>) -> Option<String>;

    /// What the body of a request for a preview asks to run; `None` for a body of another shape.
    fn decode_run(&self, body: &Vec<u8>) -> Option<RunRequest>;

    /// The description of a path.
    fn describe(&self, path: &str) -> Result<JsonTree, EngineError>;

    /// The preview of the plan that a statement makes, with no effect applied. The inner failure is
    /// that of making a document of the preview.
    fn preview(&self, statement: &str) -> Result<Result<JsonTree, String>, EngineError>;
}

// ---- responses -------------------------------------------------------------------------------

/// A response of JSON.
pub open spec fn json_response(status: u16, body: Seq<u8>) -> ResponseView {
    ResponseView { status, content_type: "application/json"@, body, headers: Seq::empty() }
}

/// The body for an error.
pub open spec fn error_body(code: Seq<char>, message: Seq<char>) -> Seq<char> {
    "{\"error\":{\"code\":"@ + json_string(code) + ",\"message\":"@ + json_string(message) + "}}"@
}

/// The response for an error.
pub open spec fn error_response(status: u16, code: Seq<char>, message: Seq<char>) -> ResponseView {
    json_response(status, encode_utf8(error_body(code, message)))
}

/// The response for a request of a shape that is not understood.
pub open spec fn malformed() -> ResponseView {
    error_response(
        400,
        "bad_request"@,
        "request body must be a JSON object with the expected fields"@,
    )
}

/// The status for an error of the engine.
pub open spec fn status_of(code: Seq<char>) -> u16 {
    if code == "unknown_mount"@ {
        404
    } else if code == "internal"@ {
        500
    } else {
        422
    }
}

/// The status for an error of the engine: 404 where nothing is mounted, 500 for a fault of its own,
/// 422 for anything that the request itself brought about.
pub fn engine_status(e: &EngineError) -> (r: u16)
    ensures
        r == status_of(e.code@),
{
    if same(e.code.as_str(), "unknown_mount") {
        404
    } else if same(e.code.as_str(), "internal") {
        500
    } else {
        422
    }
}

fn bytes_of(s: &str) -> (r: Vec<u8>)
    ensures
        r@ == encode_utf8(s@),
{
    let b: &[u8] = s.as_bytes();
    let mut r: Vec<u8> = Vec::new();
    r.extend_from_slice(b);
    assert(r@ =~= b@);
    r
}

fn respond(status: u16, content_type: &str, body: Vec<u8>) -> (r: Response)
    ensures
        r@ == (ResponseView {
            status,
            content_type: content_type@,
            body: body@,
            headers: Seq::empty(),
        }),
{
    let r: Response = Response {
        status,
        content_type: content_type.to_owned(),
        body,
        headers: Vec::new(),
    };
    assert(r@.headers =~= Seq::empty());
    r
}

fn respond_cached(content_type: &str, body: &str, cache: &str) -> (r: Response)
    ensures
        r@ == cached(content_type@, body@, cache@),
{
    let mut headers: Vec<(String, String)> = Vec::new();
    headers.push(("Cache-Control".to_owned(), cache.to_owned()));
    let r: Response = Response {
        status: 200,
        content_type: content_type.to_owned(),
        body: bytes_of(body),
        headers,
    };
    assert(r@.headers =~= seq![("Cache-Control"@, cache@)]);
    r
}

/// The response for a file of the page.
pub open spec fn cached(content_type: Seq<char>, body: Seq<char>, cache: Seq<char>) -> ResponseView {
    ResponseView {
        status: 200,
        content_type,
        body: encode_utf8(body),
        headers: seq![("Cache-Control"@, cache)],
    }
}

/// The response for an error.
pub fn json_error(status: u16, code: &str, message: &str) -> (r: Response)
    ensures
        r@ == error_response(status, code@, message@),
{
    let text: String = cat5(
        "{\"error\":{\"code\":",
        quote_json(code).as_str(),
        ",\"message\":",
        quote_json(message).as_str(),
        "}}",
    );
    respond(status, "application/json", bytes_of(text.as_str()))
}

/// The response for a document.
pub fn json_ok(tree: &JsonTree) -> (r: Response)
    ensures
        r@ == json_response(200, json_encoding(*tree)),
{
    match encode_json(tree) {
        Ok(body) => respond(200, "application/json", body),
        Err(_) => respond(
            200,
            "application/json",
            bytes_of("{\"error\":{\"code\":\"internal\",\"message\":\"could not encode result\"}}"),
        ),
    }
}

// ---- routes ----------------------------------------------------------------------------------

/// Where a request goes.
#[derive(Debug, Clone, Copy, PartialEq, Eq, Structural)]
pub enum Target {
    /// The page.
    Index,
    /// One of its files.
    Asset,
    /// The bridge's description.
    Describe,
    /// The bridge's preview.
    Run,
    /// Nothing under the bridge's prefix.
    NoRoute,
    /// Not to the dashboard.
    Elsewhere,
}

/// Where a request goes.
pub open spec fn target_of(method: Method, path: Seq<char>) -> Target {
    if method == Method::Get && path == DASHBOARD_ROOT@ {
        Target::Index
    } else if method == Method::Get && stands_at(path, 0, ASSET_PREFIX@) {
        Target::Asset
    } else if method == Method::Post && path == API_DESCRIBE@ {
        Target::Describe
    } else if method == Method::Post && path == API_RUN@ {
        Target::Run
    } else if stands_at(path, 0, API_PREFIX@) {
        Target::NoRoute
    } else {
        Target::Elsewhere
    }
}

/// Where a request goes.
pub fn target(method: Method, path: &str) -> (r: Target)
    ensures
        r == target_of(method, path@),
{
    match method {
        Method::Get => {
            if same(path, DASHBOARD_ROOT) {
                return Target::Index;
            }
            if starts_with(path, ASSET_PREFIX) {
                return Target::Asset;
            }
        },
        Method::Post => {
            if same(path, API_DESCRIBE) {
                return Target::Describe;
            }
            if same(path, API_RUN) {
                return Target::Run;
            }
        },
        Method::Other => {},
    }
    if starts_with(path, API_PREFIX) {
        Target::NoRoute
    } else {
        Target::Elsewhere
    }
}

/// The response for a file of the page.
pub open spec fn asset_at(assets: Assets, path: Seq<char>) -> ResponseView {
    if path == "/assets/app.css"@ {
        cached("text/css; charset=utf-8"@, assets.app_css@, "public, max-age=3600"@)
    } else if path == "/assets/app.js"@ {
        cached("application/javascript; charset=utf-8"@, assets.app_js@, "public, max-age=3600"@)
    } else {
        error_response(404, "not_found"@, "no such embedded dashboard asset"@)
    }
}

fn asset_response(assets: &Assets, path: &str) -> (r: Response)
    ensures
        r@ == asset_at(*assets, path@),
{
    if same(path, "/assets/app.css") {
        respond_cached("text/css; charset=utf-8", assets.app_css.as_str(), "public, max-age=3600")
    } else if same(path, "/assets/app.js") {
        respond_cached(
            "application/javascript; charset=utf-8",
            assets.app_js.as_str(),
            "public, max-age=3600",
        )
    } else {
        json_error(404, "not_found", "no such embedded dashboard asset")
    }
}

// ---- the bridge ------------------------------------------------------------------------------

/// What a request to run goes on with: its statement, or the response that refuses it.
pub open spec fn run_start(req: Option<RunRequest>) -> Result<Seq<char>, ResponseView> {
    match req {
        None => Err(malformed()),
        Some(req) => match req.mode {
            None => Ok(req.statement@),
            Some(mode) => if mode@ == "preview"@ || mode@ == "read"@ {
                Ok(req.statement@)
            } else {
                Err(
                    error_response(
                        422,
                        "unsupported_mode"@,
                        "the dashboard shell serves preview/read only; `"@ + mode@
                            + "` is not available here (commit/apply is a later milestone)"@,
                    ),
                )
            },
        },
    }
}

/// What a request to run goes on with: its statement, or the response that refuses it. Only a
/// preview goes on.
pub fn begin_run(req: Option<RunRequest>) -> (r: Result<String, Response>)
    ensures
        match r {
            Ok(s) => run_start(req) == Ok::<Seq<char>, ResponseView>(s@),
            Err(e) => run_start(req) == Err::<Seq<char>, ResponseView>(e@),
        },
{
    let req: RunRequest = match req {
        Some(req) => req,
        None => return Err(bad_request()),
    };
    match req.mode {
        None => {},
        Some(mode) => {
            if !same(mode.as_str(), "preview") && !same(mode.as_str(), "read") {
                let message: String = cat3(
                    "the dashboard shell serves preview/read only; `",
                    mode.as_str(),
                    "` is not available here (commit/apply is a later milestone)",
                );
                return Err(json_error(422, "unsupported_mode", message.as_str()));
            }
        },
    }
    Ok(req.statement)
}

/// The response for a request of a shape that is not understood. Nothing of the request stands in
/// it.
pub fn bad_request() -> (r: Response)
    ensures
        r@ == malformed(),
{
    json_error(
        400,
        "bad_request",
        "request body must be a JSON object with the expected fields",
    )
}

/// The response to a description, from what the engine answered.
pub open spec fn described(answer: Result<JsonTree, EngineError>) -> ResponseView {
    match answer {
        Ok(tree) => json_response(200, json_encoding(tree)),
        Err(e) => error_response(status_of(e.code@), e.code@, e.message@),
    }
}

/// The response to a preview, from what the engine answered.
pub open spec fn previewed(
    answer: Result<Result<JsonTree, String>, EngineError>,
) -> ResponseView {
    match answer {
        Ok(Ok(tree)) => json_response(200, json_encoding(tree)),
        Ok(Err(m)) => error_response(500, "internal"@, m@),
        Err(e) => error_response(status_of(e.code@), e.code@, e.message@),
    }
}

/// The response to a description, from what the engine answered.
pub fn description_response(answer: Result<JsonTree, EngineError>) -> (r: Response)
    ensures
        r@ == described(answer),
{
    match answer {
        Ok(tree) => json_ok(&tree),
        Err(e) => json_error(engine_status(&e), e.code.as_str(), e.message.as_str()),
    }
}

/// The response to a preview, from what the engine answered.
pub fn preview_response(answer: Result<Result<JsonTree, String>, EngineError>) -> (r: Response)
    ensures
        r@ == previewed(answer),
{
    match answer {
        Ok(Ok(tree)) => json_ok(&tree),
        Ok(Err(m)) => json_error(500, "internal", m.as_str()),
        Err(e) => json_error(engine_status(&e), e.code.as_str(), e.message.as_str()),
    }
}

/// `r` is what a request for a description comes to.
pub open spec fn describe_served<E: Engine>(engine: E, body: Vec<u8>, r: ResponseView) -> bool {
    exists|decoded: Option<String>| #[trigger]
        call_ensures(E::decode_describe, (&engine, &body), decoded) && match decoded {
            None => r == malformed(),
            Some(path) => exists|p: &str, answer: Result<JsonTree, EngineError>|
                p@ == path@ && #[trigger] call_ensures(E::describe, (&engine, p), answer)
                    && r == described(answer),
        }
}

/// `r` is what a request for a preview comes to.
pub open spec fn run_served<E: Engine>(engine: E, body: Vec<u8>, r: ResponseView) -> bool {
    exists|decoded: Option<RunRequest>| #[trigger]
        call_ensures(E::decode_run, (&engine, &body), decoded) && match run_start(decoded) {
            Err(refusal) => r == refusal,
            Ok(statement) => exists|
                s: &str,
                answer: Result<Result<JsonTree, String>, EngineError>,
            |
                s@ == statement && #[trigger] call_ensures(E::preview, (&engine, s), answer)
                    && r == previewed(answer),
        }
}

fn describe_response<E: Engine>(engine: &E, body: &Vec<u8>) -> (r: Response)
    ensures
        describe_served(*engine, *body, r@),
{
    let decoded: Option<String> = engine.decode_describe(body);
    let ghost given = decoded;
    assert(call_ensures(E::decode_describe, (engine, body), given));
    match decoded {
        None => bad_request(),
        Some(path) => {
            let p: &str = path.as_str();
            let answer: Result<JsonTree, EngineError> = engine.describe(p);
            assert(call_ensures(E::describe, (engine, p), answer));
            description_response(answer)
        },
    }
}

fn run_response<E: Engine>(engine: &E, body: &Vec<u8>) -> (r: Response)
    ensures
        run_served(*engine, *body, r@),
{
    let decoded: Option<RunRequest> = engine.decode_run(body);
    let ghost given = decoded;
    assert(call_ensures(E::decode_run, (engine, body), given));
    match begin_run(decoded) {
        Err(refusal) => refusal,
        Ok(statement) => {
            let s: &str = statement.as_str();
            let answer: Result<Result<JsonTree, String>, EngineError> = engine.preview(s);
            assert(call_ensures(E::preview, (engine, s), answer));
            preview_response(answer)
        },
    }
}

/// `r` is what a request to the dashboard comes to; `None` for one that is not for it.
pub open spec fn served<E: Engine>(
    engine: E,
    assets: Assets,
    req: Request,
    r: Option<Response>,
) -> bool {
    match target_of(req.method, req.path@) {
        Target::Elsewhere => r is None,
        Target::Index => r is Some && r->Some_0@ == cached(
            "text/html; charset=utf-8"@,
            assets.index_html@,
            "no-cache"@,
        ),
        Target::Asset => r is Some && r->Some_0@ == asset_at(assets, req.path@),
        Target::Describe => r is Some && describe_served(engine, req.body, r->Some_0@),
        Target::Run => r is Some && run_served(engine, req.body, r->Some_0@),
        Target::NoRoute => r is Some && r->Some_0@ == error_response(
            404,
            "not_found"@,
            "no dashboard bridge route matches this method and path"@,
        ),
    }
}

/// Answers a request that is for the dashboard: the page, its files and everything under the
/// bridge's prefix.
#[must_use]
pub fn serve_dashboard<E: Engine>(engine: &E, assets: &Assets, req: &Request) -> (r: Option<
    Response,
>)
    ensures
        served(*engine, *assets, *req, r),
{
    match target(req.method, req.path.as_str()) {
        Target::Elsewhere => None,
        Target::Index => Some(
            respond_cached(
                "text/html; charset=utf-8",
                assets.index_html.as_str(),
                "no-cache",
            ),
        ),
        Target::Asset => Some(asset_response(assets, req.path.as_str())),
        Target::Describe => Some(describe_response(engine, &req.body)),
        Target::Run => Some(run_response(engine, &req.body)),
        Target::NoRoute => Some(
            json_error(
                404,
                "not_found",
                "no dashboard bridge route matches this method and path",
            ),
        ),
    }
}

// ---- laws ------------------------------------------------------------------------------------

/// The dashboard cannot commit: a request with any mode but a preview is refused, with status 422,
/// before its statement is handed on; the refusal does not even depend on the statement.
pub proof fn law_only_previews_go_on(statement: String, other: String, mode: String)
    requires
        mode@ != "preview"@,
        mode@ != "read"@,
    ensures
        ({
            let r = run_start(Some(RunRequest { statement, mode: Some(mode) }));
            &&& r is Err
            &&& r->Err_0.status == 422
            &&& r == run_start(Some(RunRequest { statement: other, mode: Some(mode) }))
        }),
{
}

/// A malformed request is answered without a word of it: the answer, of status 400, is the same for
/// every body that does not decode.
pub proof fn law_malformed_requests_are_not_echoed()
    ensures
        run_start(None) == Err::<Seq<char>, ResponseView>(malformed()),
        malformed().status == 400,
{
}

/// Everything under the bridge's prefix is answered here, and nothing outside the page, its files
/// and that prefix is.
pub proof fn law_dashboard_owns_its_paths(method: Method, path: Seq<char>)
    ensures
        stands_at(path, 0, API_PREFIX@) ==> target_of(method, path) != Target::Elsewhere,
        target_of(method, path) != Target::Elsewhere ==> stands_at(path, 0, API_PREFIX@) || (method
            == Method::Get && (path == DASHBOARD_ROOT@ || stands_at(path, 0, ASSET_PREFIX@))),
{
    reveal_strlit("/api/");
    reveal_strlit("/api/describe");
    reveal_strlit("/api/run");
    if path == API_DESCRIBE@ {
        assert(path.subrange(0, 5) =~= API_PREFIX@);
    }
    if path == API_RUN@ {
        assert(path.subrange(0, 5) =~= API_PREFIX@);
    }
}

/// Reading is previewing: a statement goes on as it is where the request names either mode, or
/// none.
pub proof fn law_reading_is_previewing(statement: String, mode: String)
    requires
        mode@ == "read"@ || mode@ == "preview"@,
    ensures
        run_start(Some(RunRequest { statement, mode: Some(mode) })) == Ok::<Seq<char>, ResponseView>(
            statement@,
        ),
        run_start(Some(RunRequest { statement, mode: None })) == Ok::<Seq<char>, ResponseView>(
            statement@,
        ),
{
}

/// An error of the engine is answered alike whatever was asked of it, under its own code and
/// message, and as the caller's fault unless the engine says it is its own; a preview that has no
/// document is such an internal error. Only an answer is a success.
pub proof fn law_engine_errors_are_answered_alike(e: EngineError, m: String, internal: EngineError)
    requires
        internal.code@ == "internal"@,
        internal.message@ == m@,
    ensures
        described(Err(e)) == previewed(Err(e)),
        previewed(Ok(Err(m))) == previewed(Err(internal)),
        described(Err(e)).body == encode_utf8(error_body(e.code@, e.message@)),
        described(Err(internal)).status >= 500,
        e.code@ != "internal"@ ==> 400 <= described(Err(e)).status < 500,
        described(Err(e)).content_type == malformed().content_type,
{
    reveal_strlit("unknown_mount");
    reveal_strlit("internal");
    assert("unknown_mount"@[0] == 'u' && "internal"@[0] == 'i');
}

/// What an answer of the engine is, describing and previewing pass on alike: as JSON, with success.
pub proof fn law_answers_are_passed_on(tree: JsonTree)
    ensures
        described(Ok(tree)) == previewed(Ok(Ok(tree))),
        described(Ok(tree)).body == json_encoding(tree),
        200 <= described(Ok(tree)).status < 300,
        described(Ok(tree)).headers.len() == 0,
{
}

/// Nothing but what is posted reaches the engine, and nothing but what is fetched is a page or one
/// of its parts; a request under the API's prefix that is neither is answered with an error, never
/// with a page.
pub proof fn law_only_posts_reach_the_engine(method: Method, path: Seq<char>)
    ensures
        (target_of(method, path) is Describe || target_of(method, path) is Run) ==> method
            == Method::Post && stands_at(path, 0, API_PREFIX@),
        (target_of(method, path) is Index || target_of(method, path) is Asset) ==> method
            == Method::Get && !stands_at(path, 0, API_PREFIX@),
        stands_at(path, 0, API_PREFIX@) ==> target_of(method, path) is Describe || target_of(
            method,
            path,
        ) is Run || target_of(method, path) is NoRoute,
{
    reveal_strlit("/");
    reveal_strlit("/assets/");
    reveal_strlit("/api/");
    reveal_strlit("/api/describe");
    reveal_strlit("/api/run");
    assert(API_DESCRIBE@.subrange(0, 5) =~= API_PREFIX@);
    assert(API_RUN@.subrange(0, 5) =~= API_PREFIX@);
    if stands_at(path, 0, API_PREFIX@) {
        assert(path.subrange(0, 5)[2] == 'p');
        assert(path[2] == 'p');
        if stands_at(path, 0, ASSET_PREFIX@) {
            assert(path.subrange(0, 8)[2] == 's');
        }
    }
}

/// The parts of the page may be kept for an hour, and an error is not kept at all; a part is served
/// as it is, byte for byte.
pub proof fn law_only_the_parts_of_the_page_are_kept(assets: Assets, path: Seq<char>)
    ensures
        ({
            let part = asset_at(assets, path);
            &&& part.status == 200 ==> part.headers == seq![
                ("Cache-Control"@, "public, max-age=3600"@),
            ] && (part.body == encode_utf8(assets.app_css@) || part.body == encode_utf8(
                assets.app_js@,
            ))
            &&& part.status != 200 ==> part.status == 404 && part.headers.len() == 0
            &&& part.status == 200 <==> path == "/assets/app.css"@ || path == "/assets/app.js"@
        }),
{
}

/// The page itself is fetched anew each time, and served as it is, byte for byte.
pub proof fn law_the_page_is_fetched_anew<E: Engine>(
    engine: E,
    assets: Assets,
    req: Request,
    r: Response,
)
    requires
        req.method == Method::Get,
        req.path@ == "/"@,
        served(engine, assets, req, Some(r)),
    ensures
        r@.status == 200,
        r@.body == encode_utf8(assets.index_html@),
        r@.headers == seq![("Cache-Control"@, "no-cache"@)],
        r@.content_type == "text/html; charset=utf-8"@,
{
}

/// What is not there is answered so, under the same code: a part of the page that there is none of,
/// and a request under the API's prefix that nothing answers.
pub proof fn law_what_is_not_there_is_not_found<E: Engine>(
    engine: E,
    assets: Assets,
    req: Request,
    r: Response,
)
    requires
        served(engine, assets, req, Some(r)),
        target_of(req.method, req.path@) is NoRoute || (target_of(req.method, req.path@) is Asset
            && req.path@ != "/assets/app.css"@ && req.path@ != "/assets/app.js"@),
    ensures
        r@.status == 404,
        r@.content_type == "application/json"@,
        exists|message: Seq<char>| r@.body == encode_utf8(#[trigger] error_body("not_found"@, message)),
        r@.headers.len() == 0,
{
    if target_of(req.method, req.path@) is NoRoute {
        let m = "no dashboard bridge route matches this method and path"@;
        assert(r@.body == encode_utf8(error_body("not_found"@, m)));
    } else {
        let m = "no such embedded dashboard asset"@;
        assert(r@.body == encode_utf8(error_body("not_found"@, m)));
    }
}

} // verus!
