use templateer::engine::{apply_template, apply_variables, read_template, Context, ParseErrorKind};

fn render(text: &str, ctx: &Context) -> Vec<String> {
    apply_template(ctx, read_template(text).unwrap())
}

#[test]
fn substitutes_delimited_variable() {
    let mut ctx = Context::new();
    ctx.put("NAME", "World");
    assert_eq!(apply_variables(&ctx, "Hello %NAME%!", true), "Hello World!");
}

#[test]
fn unset_variable_is_left_alone() {
    let mut ctx = Context::new();
    ctx.put("NAME", "World");
    assert_eq!(apply_variables(&ctx, "Hi %OTHER% %NAME%", true), "Hi %OTHER% World");
}

#[test]
fn bare_keys_substitute_in_paths() {
    let mut ctx = Context::new();
    ctx.put("PACKAGE_DIR", "com/example");
    ctx.put("MOD_ID", "mymod");
    assert_eq!(
        apply_variables(&ctx, "src/main/java/PACKAGE_DIR/MOD_ID.mixins.json", false),
        "src/main/java/com/example/mymod.mixins.json"
    );
    assert_eq!(apply_variables(&ctx, "%MOD_ID%", false), "%mymod%");
}

#[test]
fn put_overwrites() {
    let mut ctx = Context::new();
    ctx.put("A", "1");
    ctx.put("B", "2");
    ctx.put("A", "3");
    let vars = ctx.iter();
    assert_eq!(vars, vec![("A".to_string(), "3".to_string()), ("B".to_string(), "2".to_string())]);
    ctx.maybe_put("C", None);
    ctx.maybe_put("B", Some("4"));
    assert_eq!(ctx.iter().len(), 2);
    assert_eq!(apply_variables(&ctx, "%A%%B%", true), "34");
}

#[test]
fn flags_are_separate_from_variables() {
    let mut ctx = Context::new();
    ctx.put("foo", "x");
    assert!(!ctx.has("foo"));
    ctx.define("foo");
    ctx.define("foo");
    assert!(ctx.has("foo"));
    assert!(!ctx.has("bar"));
}

#[test]
fn if_else_without_flag() {
    let ctx = Context::new();
    let text = "//% if foo\nA\n//% else\nB\n//% end";
    assert_eq!(render(text, &ctx), vec!["B".to_string()]);
}

#[test]
fn if_else_with_flag() {
    let mut ctx = Context::new();
    ctx.define("foo");
    let text = "//% if foo\nA\n//% else\nB\n//% end";
    assert_eq!(render(text, &ctx), vec!["A".to_string()]);
}

#[test]
fn hash_marker_and_nesting() {
    let mut ctx = Context::new();
    ctx.define("outer");
    let text = "top\n#% if outer\n//% if inner\nX\n//% else\nY %V%\n#% end\nZ\n#% end\nbottom";
    ctx.put("V", "v");
    assert_eq!(render(text, &ctx), vec!["top", "Y v", "Z", "bottom"]);
}

#[test]
fn tabs_separate_directive_words() {
    let mut ctx = Context::new();
    ctx.define("foo");
    assert_eq!(render("//%\tif\tfoo\nA\n//%\u{3000}end", &ctx), vec!["A".to_string()]);
}

#[test]
fn lone_end_is_an_error() {
    let e = read_template("//% end").err().unwrap();
    assert_eq!(e.kind, ParseErrorKind::EndAtTopLevel);
    assert_eq!(e.line, 1);
}

#[test]
fn lone_else_is_an_error() {
    let e = read_template("a\n//% else").err().unwrap();
    assert_eq!(e.kind, ParseErrorKind::ElseAtTopLevel);
    assert_eq!(e.line, 2);
}

#[test]
fn unknown_directive_is_an_error() {
    let e = read_template("x\ny\n//% elif foo").err().unwrap();
    assert_eq!(e.kind, ParseErrorKind::UnknownCommand);
    assert_eq!(e.line, 3);
    assert_eq!(e.command, "elif");
    let e = read_template("//%").err().unwrap();
    assert_eq!(e.kind, ParseErrorKind::UnknownCommand);
    assert_eq!(e.command, "");
}

#[test]
fn if_without_flag_is_an_error() {
    let e = read_template("//% if").err().unwrap();
    assert_eq!(e.kind, ParseErrorKind::MissingCondition);
}

#[test]
fn unterminated_if_is_an_error() {
    let e = read_template("//% if foo\nA").err().unwrap();
    assert_eq!(e.kind, ParseErrorKind::UnterminatedIf);
    assert_eq!(e.line, 2);
}

#[test]
fn plain_template_round_trips() {
    let mut ctx = Context::new();
    ctx.put("NAME", "x");
    let text = "line one\r\n\nline % three\nNAME stays";
    assert_eq!(render(text, &ctx), vec!["line one", "", "line % three", "NAME stays"]);
}

#[test]
fn rendering_twice_is_the_same() {
    let mut ctx = Context::new();
    ctx.define("a");
    ctx.put("K", "v");
    let text = "//% if a\n%K%\n//% end\nend";
    let first = render(text, &ctx);
    let second = render(text, &ctx);
    assert_eq!(first, second);
    assert_eq!(first, vec!["v", "end"]);
}

#[test]
fn empty_template_renders_nothing() {
    assert_eq!(render("", &Context::new()), Vec::<String>::new());
}
