use qfs::dashboard::{
    bad_request, begin_run, engine_status, json_error, serve_dashboard, target, Assets, Engine,
    EngineError, Method, Request, Response, RunRequest, Target,
};
use serde_json::Value;

struct StubEngine;

fn field(v: &Value, name: &str) -> Option<String> {
    v.get(name).and_then(Value::as_str).map(str::to_string)
}

impl Engine for StubEngine {
    fn decode_describe(&self, body: &Vec<u8>) -> Option<String> {
        field(&serde_json::from_slice::<Value>(body).ok()?, "path")
    }

    fn decode_run(&self, body: &Vec<u8>) -> Option<RunRequest> {
        let v: Value = serde_json::from_slice(body).ok()?;
        Some(RunRequest { statement: field(&v, "statement")?, mode: field(&v, "mode") })
    }

    fn describe(&self, path: &str) -> Result<Value, EngineError> {
        if path == "/nope" {
            return Err(EngineError::new("unknown_mount", "no driver is mounted for `/nope`"));
        }
        Ok(object(&[("path", path), ("archetype", "relational_table")]))
    }

    fn preview(&self, statement: &str) -> Result<Result<Value, String>, EngineError> {
        if statement.contains("BOOM") {
            return Err(EngineError::new("parse", "unexpected token"));
        }
        if statement.contains("UNSHOWN") {
            return Ok(Err("no document".to_string()));
        }
        if statement.contains("REMOVE") {
            panic!("a refused statement must not be planned");
        }
        let mut m = serde_json::Map::new();
        m.insert("preview".to_string(), Value::Object(serde_json::Map::new()));
        m.insert("committed".to_string(), Value::Bool(false));
        Ok(Ok(Value::Object(m)))
    }
}

fn object(members: &[(&str, &str)]) -> Value {
    Value::Object(
        members
            .iter()
            .map(|(k, v)| (k.to_string(), Value::String(v.to_string())))
            .collect(),
    )
}

fn assets() -> Assets {
    Assets {
        index_html: "<html><title>qfs dashboard</title></html>".to_string(),
        app_css: "body {}".to_string(),
        app_js: "let x = 1;".to_string(),
    }
}

fn get(path: &str) -> Request {
    Request { method: Method::Get, path: path.to_string(), body: Vec::new() }
}

fn post(path: &str, body: Value) -> Request {
    Request {
        method: Method::Post,
        path: path.to_string(),
        body: serde_json::to_vec(&body).unwrap(),
    }
}

fn serve(req: &Request) -> Option<Response> {
    serve_dashboard(&StubEngine, &assets(), req)
}

fn body_text(r: &Response) -> String {
    String::from_utf8(r.body.clone()).unwrap()
}

#[test]
fn root_serves_the_html_shell_with_the_right_content_type() {
    let resp = serve(&get("/")).expect("/ is owned");
    assert_eq!(resp.status, 200);
    assert_eq!(resp.content_type, "text/html; charset=utf-8");
    let html = body_text(&resp);
    assert!(html.contains("<title>qfs dashboard</title>"), "the shell page: {html}");
    assert!(!html.contains("http://") && !html.contains("https://"), "no external URL: {html}");
}

#[test]
fn assets_are_served_with_correct_content_types() {
    let css = serve(&get("/assets/app.css")).expect("css owned");
    assert_eq!(css.status, 200);
    assert_eq!(css.content_type, "text/css; charset=utf-8");
    assert!(
        css.headers.iter().any(|(k, _)| k.eq_ignore_ascii_case("cache-control")),
        "assets carry a Cache-Control header"
    );
    assert_eq!(body_text(&css), "body {}");

    let js = serve(&get("/assets/app.js")).expect("js owned");
    assert_eq!(js.status, 200);
    assert_eq!(js.content_type, "application/javascript; charset=utf-8");
    assert_eq!(body_text(&js), "let x = 1;");
}

#[test]
fn an_unknown_asset_404s() {
    let resp = serve(&get("/assets/missing.png")).expect("owned");
    assert_eq!(resp.status, 404);
    let v: Value = serde_json::from_slice(&resp.body).unwrap();
    assert_eq!(v["error"]["code"], "not_found");
}

#[test]
fn describe_bridge_returns_the_describe_json_shape() {
    let resp = serve(&post("/api/describe", object(&[("path", "/status")]))).expect("owned");
    assert_eq!(resp.status, 200);
    assert_eq!(resp.content_type, "application/json");
    let v: Value = serde_json::from_slice(&resp.body).unwrap();
    assert_eq!(v["path"], "/status");
    assert_eq!(v["archetype"], "relational_table");
}

#[test]
fn describe_unknown_mount_is_a_404() {
    let resp = serve(&post("/api/describe", object(&[("path", "/nope")]))).expect("owned");
    assert_eq!(resp.status, 404);
    let v: Value = serde_json::from_slice(&resp.body).unwrap();
    assert_eq!(v["error"]["code"], "unknown_mount");
}

#[test]
fn run_bridge_returns_a_preview_json_shape() {
    let resp = serve(&post(
        "/api/run",
        object(&[("statement", "SELECT 1"), ("mode", "preview")]),
    ))
    .expect("owned");
    assert_eq!(resp.status, 200);
    let v: Value = serde_json::from_slice(&resp.body).unwrap();
    assert!(v.get("preview").is_some(), "preview present: {v}");
    assert_eq!(v["committed"], Value::Bool(false));
}

#[test]
fn run_bridge_defaults_to_preview_when_mode_is_absent() {
    let resp = serve(&post("/api/run", object(&[("statement", "SELECT 1")]))).expect("owned");
    assert_eq!(resp.status, 200);
    let v: Value = serde_json::from_slice(&resp.body).unwrap();
    assert_eq!(v["committed"], Value::Bool(false));
}

#[test]
fn run_bridge_refuses_a_commit_mode_with_no_apply_path() {
    let resp = serve(&post(
        "/api/run",
        object(&[("statement", "REMOVE FROM /x"), ("mode", "commit")]),
    ))
    .expect("owned");
    assert_eq!(resp.status, 422);
    let v: Value = serde_json::from_slice(&resp.body).unwrap();
    assert_eq!(v["error"]["code"], "unsupported_mode");
}

#[test]
fn an_engine_error_is_a_secret_free_422() {
    let resp = serve(&post(
        "/api/run",
        object(&[("statement", "BOOM"), ("mode", "preview")]),
    ))
    .expect("owned");
    assert_eq!(resp.status, 422);
    let v: Value = serde_json::from_slice(&resp.body).unwrap();
    assert_eq!(v["error"]["code"], "parse");
}

#[test]
fn a_malformed_body_is_a_400_without_echoing_input() {
    let req = Request {
        method: Method::Post,
        path: "/api/run".to_string(),
        body: b"not json at all {{".to_vec(),
    };
    let resp = serve(&req).expect("owned");
    assert_eq!(resp.status, 400);
    let v: Value = serde_json::from_slice(&resp.body).unwrap();
    assert_eq!(v["error"]["code"], "bad_request");
    assert!(!body_text(&resp).contains("not json at all"), "input not echoed");
    assert_eq!(resp, bad_request());
}

#[test]
fn the_bridge_serves_no_connection_listing_to_the_browser() {
    let resp = serve(&post("/api/connections", Value::Object(serde_json::Map::new()))).expect("owned");
    assert_eq!(resp.status, 404);
}

#[test]
fn non_dashboard_paths_fall_through() {
    assert!(serve(&get("/mcp")).is_none());
    assert!(serve(&get("/hooks/x")).is_none());
    assert!(serve(&post("/mcp", Value::Object(serde_json::Map::new()))).is_none());
}

#[test]
fn error_bodies_are_encoded_as_serde_would() {
    let resp = json_error(422, "parse", "bad \"quote\"\n\u{1}");
    let v: Value = serde_json::from_slice(&resp.body).unwrap();
    assert_eq!(v["error"]["code"], "parse");
    assert_eq!(v["error"]["message"], "bad \"quote\"\n\u{1}");
}

#[test]
fn a_preview_that_has_no_document_is_an_error() {
    let resp = serve(&post("/api/run", object(&[("statement", "UNSHOWN")]))).expect("owned");
    assert!(resp.status >= 400);
    assert!(serde_json::from_slice::<Value>(&resp.body).is_ok());
}

#[test]
fn only_a_preview_goes_on() {
    let run = |mode: Option<&str>| {
        begin_run(Some(RunRequest {
            statement: "S".to_string(),
            mode: mode.map(str::to_string),
        }))
    };
    assert_eq!(run(None), Ok("S".to_string()));
    assert_eq!(run(Some("preview")), Ok("S".to_string()));
    assert_eq!(run(Some("commit")).unwrap_err().status, 422);
    assert_eq!(run(Some("PREVIEW!")).unwrap_err().status, 422);
    assert_eq!(begin_run(None).unwrap_err().status, 400);
}

#[test]
fn targets_follow_the_method_and_the_path() {
    assert_eq!(engine_status(&EngineError::new("unknown_mount", "x")), 404);
    assert_eq!(engine_status(&EngineError::new("parse", "x")), 422);
    assert!(matches!(target(Method::Other, "/mcp"), Target::Elsewhere));
    assert!(!matches!(target(Method::Get, "/"), Target::Elsewhere));
    assert!(!matches!(target(Method::Get, "/api/x"), Target::Elsewhere));
}
