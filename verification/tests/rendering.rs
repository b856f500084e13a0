use qfs::dashboard::json_error;
use qfs::http::{is_sensitive_header, HttpMethod, HttpRequest, HttpResponse, REDACTED, SENSITIVE_HEADERS};
use qfs::output::{
    display_value, error_envelope, escape, render_table, write_row, Cell, ExecError, JsonRenderer,
    OutputFormat, PlanPreview, Renderer, RowSet, TableRenderer,
};
use qfs::types::value::{Row, Value};

// ---- requests and responses ------------------------------------------------------------------

/// What a rendering looks like, written by `derive`.
#[derive(Debug)]
#[allow(dead_code)]
struct Shown<'a> {
    method: HttpMethod,
    url: &'a str,
    headers: Vec<(&'a str, &'a str)>,
    body_len: usize,
}

fn request() -> HttpRequest {
    HttpRequest::new(HttpMethod::Post, "https://api.example.com/\"x\"\n\u{e9}".to_string())
        .header("Authorization".to_string(), "Bearer token-canary".to_string())
        .header("Accept".to_string(), "tab\there 'q'".to_string())
        .header("x-API-key".to_string(), "k".to_string())
        .with_body(b"payload-canary".to_vec())
}

#[test]
fn a_request_is_rendered_as_derive_would_but_redacted() {
    let shown = Shown {
        method: HttpMethod::Post,
        url: "https://api.example.com/\"x\"\n\u{e9}",
        headers: vec![
            ("Authorization", REDACTED),
            ("Accept", "tab\there 'q'"),
            ("x-API-key", REDACTED),
        ],
        body_len: 14,
    };
    let expected = format!("{shown:?}").replacen("Shown", "HttpRequest", 1);
    assert_eq!(request().debug_text(), expected);
    assert!(!request().debug_text().contains("canary"));
}

#[test]
fn an_empty_request_has_no_body() {
    let r = HttpRequest::new(HttpMethod::Get, "u".to_string());
    assert_eq!(
        r.debug_text(),
        "HttpRequest { method: Get, url: \"u\", headers: [], body_len: 0 }"
    );
}

#[test]
fn a_response_hides_its_cookies_and_its_body() {
    let r = HttpResponse::new(503, b"body-canary".to_vec())
        .header("Set-Cookie".to_string(), "sid=canary".to_string())
        .header("Content-Type".to_string(), "text/plain".to_string());
    assert_eq!(
        r.debug_text(),
        "HttpResponse { status: 503, headers: [(\"Set-Cookie\", \"[REDACTED]\"), (\"Content-Type\", \"text/plain\")], body_len: 11 }"
    );
    assert!(!r.is_success());
    for (status, ok) in [(199, false), (200, true), (299, true), (300, false)] {
        assert_eq!(HttpResponse::new(status, Vec::new()).is_success(), ok);
    }
}

#[test]
fn headers_are_found_in_any_case_and_the_first_wins() {
    let r = request().header("ACCEPT".to_string(), "second".to_string());
    assert_eq!(r.header_value("accept"), Some("tab\there 'q'"));
    assert_eq!(r.header_value("missing"), None);
    let r = HttpResponse::new(200, Vec::new()).header("Link".to_string(), "<x>".to_string());
    assert_eq!(r.header_value("LINK"), Some("<x>"));
}

#[test]
fn sensitive_names_are_known_in_any_case() {
    for name in SENSITIVE_HEADERS {
        assert!(is_sensitive_header(name));
        assert!(is_sensitive_header(&name.to_uppercase()));
    }
    assert!(!is_sensitive_header("accept"));
    assert!(!is_sensitive_header("authorization "));
}

#[test]
fn only_a_post_is_not_retried() {
    for (m, token, safe) in [
        (HttpMethod::Get, "GET", true),
        (HttpMethod::Post, "POST", false),
        (HttpMethod::Put, "PUT", true),
        (HttpMethod::Delete, "DELETE", true),
    ] {
        assert_eq!(m.as_str(), token);
        assert_eq!(m.is_retry_safe(), safe);
    }
}

// ---- JSON ------------------------------------------------------------------------------------

#[test]
fn strings_are_quoted_as_serde_quotes_them() {
    let mut text = String::from("\"\\/é\u{7f}\u{2028}\u{1f600}");
    for c in 0u8..32 {
        text.push(c as char);
    }
    let body = String::from_utf8(json_error(400, "c", &text).body).unwrap();
    let quoted = serde_json::to_string(&text).unwrap();
    assert_eq!(body, format!("{{\"error\":{{\"code\":\"c\",\"message\":{quoted}}}}}"));
}

fn error() -> ExecError {
    ExecError {
        code: "invalid_path".to_string(),
        kind: "plan".to_string(),
        message: "no \"such\"\npath\t\\".to_string(),
        path: Some("/x".to_string()),
        detail: None,
    }
}

#[test]
fn an_error_envelope_is_json_in_a_fixed_order() {
    assert_eq!(
        error_envelope(&error()),
        "{\"error\":{\"code\":\"invalid_path\",\"kind\":\"plan\",\"message\":\"no \\\"such\\\"\\npath\\t\\\\\",\"path\":\"/x\"}}"
    );
    let v: serde_json::Value = serde_json::from_str(&error_envelope(&error())).unwrap();
    assert_eq!(v["error"]["message"], "no \"such\"\npath\t\\");
    let mut e = error();
    e.path = None;
    e.detail = Some("d".to_string());
    assert!(error_envelope(&e).ends_with(",\"detail\":\"d\"}}"));
}

#[test]
fn escaped_texts_are_strings_of_json() {
    assert_eq!(
        escape("a\"b\\c\nd\re\tf\u{8}\u{1f}é\u{7f}"),
        "a\\\"b\\\\c\\nd\\re\\tf\\u0008\\u001fé\u{7f}"
    );
    for c in 0u8..=127 {
        let text = format!("a{}b", c as char);
        let mut e = error();
        e.message = text.clone();
        let v: serde_json::Value = serde_json::from_str(&error_envelope(&e)).unwrap();
        assert_eq!(v["error"]["message"], text.as_str());
    }
}

// ---- tables ----------------------------------------------------------------------------------

fn cell(value: Value) -> Cell {
    Cell { value, encoded: None }
}

fn row_set(columns: &[&str], rows: Vec<Vec<Cell>>) -> RowSet {
    RowSet { columns: columns.iter().map(|c| c.to_string()).collect(), rows, encoded: None }
}

#[test]
fn a_table_is_aligned_as_the_guide_shows_it() {
    let rows = row_set(
        &["customer", "total"],
        vec![
            vec![cell(Value::Text("carol".to_string())), cell(Value::Int(220))],
            vec![cell(Value::Text("alice".to_string())), cell(Value::Int(150))],
        ],
    );
    assert_eq!(
        TableRenderer.rows(&rows),
        "customer | total\n-------- | -----\ncarol    | 220\nalice    | 150\n(2 row(s))\n"
    );
}

#[test]
fn widths_count_characters_and_short_rows_are_filled() {
    let strings = |list: &[&str]| -> Vec<String> { list.iter().map(|s| s.to_string()).collect() };
    assert_eq!(
        render_table(
            &strings(&["é", "bb"]),
            &vec![strings(&["ééé", "x", "beyond"]), strings(&["y"])]
        ),
        "é   | bb\n--- | --\nééé | x\ny   |\n"
    );
    assert_eq!(write_row(&strings(&["a", "bcd"]), &vec![3, 1]), "a   | bcd\n");
    assert_eq!(render_table(&Vec::new(), &vec![strings(&["x"])]), "\n\n\n");
}

#[test]
fn a_result_without_columns_only_counts() {
    assert_eq!(TableRenderer.rows(&row_set(&[], vec![vec![], vec![]])), "(0 columns, 2 row(s))\n");
}

#[test]
fn values_are_displayed_for_people() {
    let shown = |value: Value, encoded: Option<&str>| {
        display_value(&Cell { value, encoded: encoded.map(str::to_string) })
    };
    assert_eq!(shown(Value::Null, None), "NULL");
    assert_eq!(shown(Value::Bool(true), None), "true");
    assert_eq!(shown(Value::Int(i64::MIN), None), i64::MIN.to_string());
    assert_eq!(shown(Value::Float(0.5f64.to_bits()), Some("0.5")), "0.5");
    assert_eq!(shown(Value::Text("t".to_string()), Some("ignored")), "t");
    assert_eq!(shown(Value::Bytes(vec![0; 12]), None), "<12 bytes>");
    assert_eq!(shown(Value::Timestamp(-7), None), "-7");
    assert_eq!(shown(Value::Struct(Row::default()), Some("{}")), "{}");
    assert_eq!(shown(Value::Array(Vec::new()), None), "?");
}

#[test]
fn the_renderers_agree_on_what_they_are_given() {
    let plan = PlanPreview {
        preview: "1 effect".to_string(),
        committed: true,
        encoded: Some("{\"committed\":true}".to_string()),
    };
    assert_eq!(TableRenderer.plan(&plan), "COMMITTED:\n1 effect\n");
    assert_eq!(JsonRenderer.plan(&plan), "{\"committed\":true}\n");
    let unencoded = PlanPreview { preview: "p".to_string(), committed: false, encoded: None };
    assert_eq!(TableRenderer.plan(&unencoded), "p\n");
    assert_eq!(JsonRenderer.plan(&unencoded), "{}\n");
    let rows = row_set(&["a"], vec![]);
    assert_eq!(OutputFormat::Json.renderer().rows(&rows), "{\"rows\":[]}\n");
    assert_eq!(OutputFormat::Table.renderer().rows(&rows), "a\n-\n(0 row(s))\n");
    assert_eq!(
        TableRenderer.error(&error()),
        "error[invalid_path]: no \"such\"\npath\t\\ (at /x)\n"
    );
    let mut e = error();
    e.detail = Some("why".to_string());
    assert!(TableRenderer.error(&e).ends_with(" (at /x) — why\n"));
    assert_eq!(JsonRenderer.error(&e), format!("{}\n", error_envelope(&e)));
}
