use templateer::generator::escape_json_and_toml;

#[test]
fn nothing_needs_escaping() {
    let input = "Hello, world‽ 🧶";
    let escaped = escape_json_and_toml(input);
    assert_eq!(escaped, input);
}

#[test]
fn escape_quotes() {
    let input = "My \"Great\" Mod";
    let escaped = escape_json_and_toml(input);
    assert_eq!(escaped, "My \\\"Great\\\" Mod");
}

#[test]
fn escape_backslashes() {
    let input = "My Mod \\ with a Weird Name";
    let escaped = escape_json_and_toml(input);
    assert_eq!(escaped, "My Mod \\\\ with a Weird Name");
}

#[test]
fn escape_controls() {
    let input = "Hello\tWorld";
    let escaped = escape_json_and_toml(input);
    assert_eq!(escaped, "Hello\\u0009World");
}

#[test]
fn escape_delete_and_newline() {
    assert_eq!(escape_json_and_toml("a\u{7f}b\nc"), "a\\u007Fb\\u000Ac");
}

#[test]
fn escape_empty() {
    assert_eq!(escape_json_and_toml(""), "");
}
