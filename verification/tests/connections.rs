use qfs::connections_config::{
    declared_connections, declared_for, parse_connections, parse_declaration, split_statements,
};

#[test]
fn parses_multiple_declarations() {
    let src = "CREATE CONNECTION orders DRIVER sqlite AT '/data/orders.db';\n\
               CREATE CONNECTION work DRIVER gmail SECRET 'vault:gmail/work';";
    let conns = parse_connections(src);
    assert_eq!(conns.len(), 2);
    assert_eq!(conns[0].name, "orders");
    assert_eq!(conns[0].driver, "sqlite");
    assert_eq!(conns[0].at_locator.as_deref(), Some("/data/orders.db"));
    assert!(conns[0].secret_ref.is_none());
    assert_eq!(conns[1].driver, "gmail");
    assert_eq!(conns[1].secret_ref.as_deref(), Some("vault:gmail/work"));
    assert!(conns[1].at_locator.is_none());
}

#[test]
fn a_semicolon_inside_a_quoted_locator_does_not_split() {
    let conns = parse_connections("CREATE CONNECTION weird DRIVER sqlite AT '/data/a;b.db';");
    assert_eq!(conns.len(), 1);
    assert_eq!(conns[0].at_locator.as_deref(), Some("/data/a;b.db"));
}

#[test]
fn non_connection_statements_are_ignored() {
    let src = "CREATE POLICY p ALLOW SELECT;\n\
               CREATE CONNECTION orders DRIVER sqlite AT '/data/orders.db';";
    let conns = parse_connections(src);
    assert_eq!(conns.len(), 1);
    assert_eq!(conns[0].name, "orders");
}

#[test]
fn declared_for_filters_by_driver_over_parsed_declarations() {
    let conns = parse_connections(
        "CREATE CONNECTION a DRIVER sqlite AT '/a.db';\n\
         CREATE CONNECTION b DRIVER git AT '/b.git';",
    );
    let sqlite = declared_for(&conns, "sqlite");
    assert_eq!(sqlite.len(), 1);
    assert_eq!(sqlite[0].name, "a");
}

#[test]
fn an_absent_configuration_declares_nothing() {
    assert!(declared_connections(None).is_empty());
    assert!(declared_connections(Some("")).is_empty());
    assert_eq!(
        declared_connections(Some("CREATE CONNECTION a DRIVER git AT '/a'")).len(),
        1
    );
}

#[test]
fn statements_split_at_semicolons_outside_quotes() {
    assert_eq!(
        split_statements("a ; 'b;c' ;\n d "),
        vec!["a ".to_string(), " 'b;c' ".to_string(), "\n d ".to_string()]
    );
    assert_eq!(split_statements("a;  \n"), vec!["a".to_string()]);
    assert_eq!(split_statements(";;"), vec!["".to_string(), "".to_string()]);
}

#[test]
fn pieces_joined_again_make_the_source() {
    let source = "CREATE CONNECTION a DRIVER git AT '/x;y';CREATE POLICY p;rest";
    assert_eq!(split_statements(source).join(";"), source);
}

#[test]
fn a_declaration_without_a_driver_is_passed_over() {
    assert!(parse_declaration("CREATE CONNECTION a AT '/a'").is_none());
    assert!(parse_declaration("SELECT 1").is_none());
    assert!(parse_declaration("").is_none());
    assert!(parse_declaration("CREATE CONNECTION a DRIVER git AT /a").is_none());
    let decl = parse_declaration(" CREATE CONNECTION a DRIVER git AT '/a' SECRET 'env:X' ").unwrap();
    assert_eq!(decl.name, "a");
    assert_eq!(decl.driver, "git");
    assert_eq!(decl.at_locator.as_deref(), Some("/a"));
    assert_eq!(decl.secret_ref.as_deref(), Some("env:X"));
}

#[test]
fn joined_sources_declare_what_each_declares() {
    let names = |s: &str| -> Vec<String> {
        declared_connections(Some(s)).into_iter().map(|c| c.name).collect()
    };
    let a = "CREATE CONNECTION a DRIVER git AT '/a;b'";
    let b = "CREATE CONNECTION b DRIVER git; CREATE CONNECTION c DRIVER sqlite";
    let mut both = names(a);
    both.extend(names(b));
    assert_eq!(names(&format!("{a};{b}")), both);
    assert_eq!(both, vec!["a", "b", "c"]);
    assert_eq!(names(&format!(" ;{b}")), names(b));
}
