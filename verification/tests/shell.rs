use qfs::cloud_mounts::CloudMount;
use qfs::output::{Cell, ExecError, PlanPreview, RowSet};
use qfs::read_facets::{local_to_qfs, scanned, CfsError, LocalError};
use qfs::shell::{
    cloud_read_facet, connect_hint, history_path, local_scan_path, render, run_engine_and_reads,
    Facet, FacetPlan, Outcome, Repl, Step, Surroundings,
};
use qfs::types::value::Value;

fn plan(preview: &str) -> PlanPreview {
    PlanPreview { preview: preview.to_string(), committed: false, encoded: None }
}

fn names(list: &[&str]) -> RowSet {
    RowSet {
        columns: vec!["name".to_string()],
        rows: list
            .iter()
            .map(|n| vec![Cell { value: Value::Text(n.to_string()), encoded: None }])
            .collect(),
        encoded: None,
    }
}

/// A session over a directory that is known beforehand: `rm` and `cp` have effects, a path that is
/// not mounted does not resolve.
fn evaluate(line: &str, commit: bool) -> Result<Outcome, ExecError> {
    if line == "ls" {
        return Ok(Outcome::Listing(names(&["a.md", "b.txt", "sub"])));
    }
    if line.starts_with("rm ") || line.starts_with("cp ") {
        let plans = vec![plan(&format!("effect of `{line}`"))];
        return Ok(if commit { Outcome::Committed(plans) } else { Outcome::Preview(plans) });
    }
    if line == "pwd" {
        return Ok(Outcome::Cwd("/local".to_string()));
    }
    if line.trim().is_empty() {
        return Ok(Outcome::Empty);
    }
    Err(ExecError {
        code: "unknown_source".to_string(),
        kind: "plan".to_string(),
        message: "no driver is mounted".to_string(),
        path: None,
        detail: None,
    })
}

/// Runs a script; gives the transcript, the history, and the lines that were applied.
fn run_script(script: &str) -> (String, Vec<String>, Vec<String>) {
    let mut repl = Repl::new();
    let mut out = String::new();
    let mut history = Vec::new();
    let mut applied = Vec::new();
    for raw in script.split_inclusive('\n') {
        let turn = repl.read(raw);
        history.extend(turn.remembered);
        match turn.step {
            Step::Say(text) => out.push_str(&text),
            Step::Evaluate { line, commit } => {
                if commit {
                    applied.push(line.clone());
                }
                out.push_str(&repl.answer(&line, commit, &evaluate(&line, commit)));
            }
        }
    }
    (out, history, applied)
}

#[test]
fn ls_lists_local_directory_end_to_end() {
    let (t, _, _) = run_script("ls\n");
    assert!(t.contains("a.md"), "transcript:\n{t}");
    assert!(t.contains("b.txt"), "transcript:\n{t}");
    assert!(t.contains("sub"), "transcript:\n{t}");
}

#[test]
fn rm_previews_and_does_not_apply_until_commit() {
    let (t, _, applied) = run_script("rm a.md\n");
    assert!(t.contains("PREVIEW"), "rm must preview by default:\n{t}");
    assert!(t.contains("type COMMIT to apply"), "transcript:\n{t}");
    assert!(applied.is_empty(), "PREVIEW must not delete the file");
}

#[test]
fn rm_then_commit_reaches_the_committed_plan_stage() {
    let (t, history, applied) = run_script("rm a.md\nCOMMIT\n");
    assert!(t.contains("PREVIEW"), "transcript:\n{t}");
    assert!(t.contains("COMMITTED"), "COMMIT reaches the committed stage:\n{t}");
    assert_eq!(applied, vec!["rm a.md".to_string()]);
    assert_eq!(history, vec!["rm a.md".to_string(), "COMMIT".to_string()]);
}

#[test]
fn cp_previews_a_cross_node_plan() {
    let (t, _, applied) = run_script("cp a.md a-copy.md\n");
    assert!(t.contains("PREVIEW"), "cp must preview:\n{t}");
    assert!(applied.is_empty(), "PREVIEW must not create the copy");
}

#[test]
fn an_unconnected_third_party_path_does_not_resolve() {
    let (t, _, _) = run_script("/mail/drafts |> SELECT subject\n");
    assert!(
        !t.contains("PREVIEW") && !t.contains("subject"),
        "an un-CONNECTed /mail must not resolve:\n{t}"
    );
    assert!(t.contains("no driver is mounted"));
}

#[test]
fn bare_commit_with_no_pending_is_reported() {
    let (t, _, _) = run_script("COMMIT\n");
    assert!(t.contains("nothing to commit"), "transcript:\n{t}");
}

#[test]
fn only_the_line_just_before_is_committed() {
    let (_, _, applied) = run_script("rm a.md\npwd\nCOMMIT\n");
    assert!(applied.is_empty());
    let (_, _, applied) = run_script("rm a.md\n\nCOMMIT\n");
    assert!(applied.is_empty());
    let (_, _, applied) = run_script("rm a.md\nnonsense\nCOMMIT\n");
    assert!(applied.is_empty());
    let (_, _, applied) = run_script("rm a.md\nrm b.txt\n  commit \r\n");
    assert_eq!(applied, vec!["rm b.txt".to_string()]);
}

#[test]
fn a_preview_is_committed_once() {
    let (t, _, applied) = run_script("rm a.md\nCOMMIT\nCOMMIT");
    assert_eq!(applied.len(), 1);
    assert!(t.ends_with("nothing to commit\n"));
}

#[test]
fn blank_lines_are_not_remembered() {
    let (_, history, _) = run_script("\n  \r\npwd\r\n");
    assert_eq!(history, vec!["pwd".to_string()]);
}

#[test]
fn outcomes_render_exactly() {
    assert_eq!(render(&Outcome::Empty), "");
    assert_eq!(render(&Outcome::Moved("/local/sub".to_string())), "/local/sub\n");
    assert_eq!(render(&Outcome::Cwd("/local".to_string())), "/local\n");
    let preview = render(&Outcome::Preview(vec![plan("one"), plan("two")]));
    assert!(preview.starts_with("PREVIEW (2 effect plan(s), nothing applied):\n"));
    assert!(preview.ends_with("type COMMIT to apply\n"));
    let committed = render(&Outcome::Committed(Vec::new()));
    assert_eq!(committed, "COMMITTED (0 effect plan(s)):\n");
}

#[test]
fn the_history_lies_below_the_configuration_directory() {
    assert_eq!(history_path(Some("/x"), Some("/h")).as_deref(), Some("/x/qfs/history"));
    assert_eq!(history_path(Some("/x/"), None).as_deref(), Some("/x/qfs/history"));
    assert_eq!(history_path(None, Some("/h")).as_deref(), Some("/h/.config/qfs/history"));
    assert_eq!(history_path(Some(""), None).as_deref(), Some("qfs/history"));
    assert_eq!(history_path(None, None), None);
    for (config, home) in [(Some("/x"), None), (None, Some("/h/")), (Some(""), Some("a"))] {
        let base = match (config, home) {
            (Some(c), _) => std::path::PathBuf::from(c),
            (None, Some(h)) => std::path::PathBuf::from(h).join(".config"),
            _ => unreachable!(),
        };
        assert_eq!(
            history_path(config, home),
            Some(base.join("qfs").join("history").to_str().unwrap().to_string())
        );
    }
}

#[test]
fn a_scan_without_a_path_reads_the_mount() {
    assert_eq!(local_scan_path(""), "/local");
    assert_eq!(local_scan_path("/local/sub"), "/local/sub");
}

#[test]
fn local_errors_keep_the_path_and_a_code() {
    let reduced = |e: LocalError| {
        let CfsError::InvalidPath { path, reason } = local_to_qfs(&e);
        (path, reason)
    };
    assert_eq!(
        reduced(LocalError::OutsideSandbox("/x".to_string())),
        ("/x".to_string(), "outside_sandbox".to_string())
    );
    assert_eq!(reduced(LocalError::NotFound("/x".to_string())), ("/x".to_string(), "read_failed".to_string()));
    assert_eq!(
        reduced(LocalError::Io { path: "/x".to_string(), message: "EIO".to_string() }),
        ("/x".to_string(), "read_failed".to_string())
    );
    assert_eq!(reduced(LocalError::Other("unsupported".to_string())), (String::new(), "unsupported".to_string()));
}

#[test]
fn a_failed_read_is_an_error_and_never_rows() {
    assert_eq!(scanned("/slack/acme/users", Ok(vec![1])), Ok(vec![1]));
    let err: Result<Vec<u8>, CfsError> = scanned("/github/octocat/hello/pulls", Err("github_auth"));
    assert_eq!(
        err,
        Err(CfsError::InvalidPath {
            path: "/github/octocat/hello/pulls".to_string(),
            reason: "github_auth".to_string(),
        })
    );
}

fn mount(path: &str, kind: &str, account: Option<&str>) -> CloudMount {
    CloudMount {
        path: path.to_string(),
        kind: kind.to_string(),
        account: account.map(str::to_string),
    }
}

#[test]
fn a_mount_reads_by_its_own_account() {
    let facet = |kind: &str| cloud_read_facet(&mount("/m", kind, Some("work")));
    assert_eq!(facet("gmail"), Some(FacetPlan::Gmail));
    assert_eq!(facet("gdrive"), Some(FacetPlan::Gdrive));
    assert_eq!(facet("ga"), Some(FacetPlan::Analytics));
    assert_eq!(facet("google-analytics"), Some(FacetPlan::Analytics));
    assert_eq!(facet("github"), Some(FacetPlan::Github("work".to_string())));
    assert_eq!(facet("slack"), Some(FacetPlan::Slack("work".to_string())));
    assert_eq!(facet("s3"), Some(FacetPlan::S3("work".to_string())));
    assert_eq!(facet("r2"), Some(FacetPlan::R2("work".to_string())));
    assert_eq!(facet("cf"), None);
    for kind in ["gmail", "gdrive", "ga", "github", "slack", "s3", "r2", "cf"] {
        assert_eq!(cloud_read_facet(&mount("/m", kind, None)), None, "{kind} without an account");
    }
}

#[test]
fn the_hints_name_the_commands() {
    for kind in ["gmail", "gdrive", "ga", "github", "slack", "s3", "r2"] {
        let hint = connect_hint(kind);
        assert!(hint.contains("qfs account add"), "{hint}");
        assert!(hint.contains(&format!("qfs connect <path> {kind}")), "{hint}");
    }
    assert_eq!(connect_hint("ga"), connect_hint("google-analytics"));
    assert_eq!(
        connect_hint("cf"),
        "this mount's driver has no live read facet yet — see `qfs describe` for its surface"
    );
}

#[test]
fn a_run_reads_from_the_system_and_every_mount() {
    let world = Surroundings {
        system: true,
        sessions: Some("sessions".to_string()),
        sql: false,
        git: true,
    };
    let mounts = vec![
        mount("/mail2", "gmail", Some("a@b")),
        mount("no-slash", "gmail", Some("a@b")),
        mount("/gh", "github", Some("work")),
        mount("/slack", "slack", None),
        mount("/cf", "cf", Some("zone")),
    ];
    let bound = vec![true, true, false, true, true];
    let (planned, reads) = run_engine_and_reads(&world, &mounts, &bound);
    let planned: Vec<&str> = planned.iter().map(|d| d.as_str()).collect();
    assert_eq!(planned, vec!["local", "git", "sys"]);
    let ids: Vec<&str> = reads.iter().map(|r| r.id.as_str()).collect();
    assert_eq!(ids, vec!["local", "sys", "sessions", "git", "mail2", "gh", "slack", "cf"]);
    match &reads[4].facet {
        Facet::Live { mount, remap } => {
            assert_eq!(*mount, 0);
            assert_eq!(remap.path_in("/mail2/inbox"), "/mail/inbox");
        }
        other => panic!("expected live reads, got {other:?}"),
    }
    match &reads[5].facet {
        Facet::Hint(text) => assert_eq!(*text, connect_hint("github")),
        other => panic!("expected a hint, got {other:?}"),
    }
    assert!(matches!(&reads[6].facet, Facet::Hint(text) if *text == connect_hint("slack")));
    assert!(matches!(&reads[7].facet, Facet::Hint(text) if *text == connect_hint("cf")));
    let bare = Surroundings { system: false, sessions: None, sql: true, git: false };
    let (planned, reads) = run_engine_and_reads(&bare, &Vec::new(), &Vec::new());
    assert_eq!(planned.iter().map(|d| d.as_str()).collect::<Vec<_>>(), vec!["local", "sql", "sys"]);
    assert_eq!(reads.iter().map(|r| r.id.as_str()).collect::<Vec<_>>(), vec!["local", "sql"]);
}
