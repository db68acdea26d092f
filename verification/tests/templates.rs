use maniparse::template::{foreign_tag, placeholders_bound, strip_row};

fn keys(names: &[&str]) -> Vec<String> {
    names.iter().map(|k| k.to_string()).collect()
}

#[test]
fn strip_row_removes_every_marker() {
    assert_eq!(strip_row("build-{{row.os}}-{{row.arch}}"), "build-{{os}}-{{arch}}");
    assert_eq!(strip_row("row.row.x"), "x");
    assert_eq!(strip_row("plain"), "plain");
    assert_eq!(strip_row(""), "");
    assert_eq!(strip_row("row."), "");
    assert_eq!(strip_row("arrow.head"), "arhead");
}

#[test]
fn strip_row_does_not_search_what_is_left() {
    // Taking the marker out of the middle leaves a new `row.` behind, and
    // that one stays.
    assert_eq!(strip_row("rorow.w.x"), "row.x");
    assert_eq!(strip_row("rorow.w.x"), "rorow.w.x".replace("row.", ""));
}

#[test]
fn strip_row_keeps_other_characters() {
    assert_eq!(strip_row("row"), "row");
    assert_eq!(strip_row("row-."), "row-.");
    assert_eq!(strip_row("Row.x"), "Row.x");
    assert_eq!(strip_row("größe-{{row.ü}}"), "größe-{{ü}}");
}

#[test]
fn foreign_tag_finds_partials_and_delimiter_changes() {
    assert!(foreign_tag("{{>other}}"));
    assert!(foreign_tag("a-{{=<% %>=}}-b"));
    assert!(foreign_tag("{{{>x}}}"));
    assert!(!foreign_tag("{{ >other}}"));
    assert!(!foreign_tag("{{os}}>{{arch}}"));
    assert!(!foreign_tag("a > b = c"));
    assert!(!foreign_tag("{{"));
    assert!(!foreign_tag(""));
}

#[test]
fn placeholders_bound_accepts_keys_and_comments() {
    let k = keys(&["os", "arch"]);
    assert!(placeholders_bound("build-{{os}}-{{arch}}", &k));
    assert!(placeholders_bound("build-{{ os }}-{{{arch}}}", &k));
    assert!(placeholders_bound("{{&os}}{{#arch}}x{{/arch}}{{^os}}y{{/os}}", &k));
    assert!(placeholders_bound("{{! any words here }}{{os}}", &k));
    assert!(placeholders_bound("no tags at all", &k));
    assert!(placeholders_bound("open {{ and never closed", &k));
    assert!(placeholders_bound("", &k));
}

#[test]
fn placeholders_bound_refuses_other_names() {
    let k = keys(&["os", "arch"]);
    assert!(!placeholders_bound("build-{{os}}-{{cpu}}", &k));
    assert!(!placeholders_bound("{{}}", &k));
    assert!(!placeholders_bound("{{ }}", &k));
    assert!(!placeholders_bound("{{OS}}", &k));
    assert!(!placeholders_bound("{{os}}{{arch}}{{x}}", &k));
    assert!(!placeholders_bound("{{os}}", &keys(&[])));
}

#[test]
fn placeholders_bound_refuses_names_with_a_point() {
    let k = keys(&["os", "a.b", "."]);
    assert!(placeholders_bound("{{os}}", &k));
    assert!(!placeholders_bound("{{a.b}}", &k));
    assert!(!placeholders_bound("{{.}}", &k));
    assert!(!placeholders_bound("{{ . }}", &k));
    assert!(!placeholders_bound("{{os.}}", &k));
}
