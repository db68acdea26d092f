use maniparse::expand::{dimension_keys, dimension_texts, expand, gather, ExpansionError, TemplateFault};
use maniparse::version::Version;

fn texts(values: &[&str]) -> Vec<Version> {
    values.iter().map(|v| Version::String(v.to_string())).collect()
}

fn names(values: &[&str]) -> Vec<String> {
    values.iter().map(|v| v.to_string()).collect()
}

fn fault(r: Result<Vec<String>, ExpansionError>) -> (String, TemplateFault) {
    match r {
        Err(ExpansionError::TemplateFailure { template, cause }) => (template, cause),
        other => panic!("no template failure: {:?}", other),
    }
}

#[test]
fn two_dimensions_expand_to_all_combinations() {
    let matrix = vec![
        ("os".to_string(), texts(&["linux", "darwin"])),
        ("arch".to_string(), texts(&["amd64", "arm64"])),
    ];
    let got = expand("build-{{row.os}}-{{row.arch}}", &matrix).unwrap();
    assert_eq!(
        got,
        names(&["build-linux-amd64", "build-linux-arm64", "build-darwin-amd64", "build-darwin-arm64"])
    );
}

#[test]
fn three_dimensions_expand_to_twelve_names() {
    let matrix = vec![
        ("py".to_string(), vec![Version::Float("3.9".to_string()), Version::Float("3.10".to_string()), Version::Int(4)]),
        ("os".to_string(), texts(&["linux", "darwin"])),
        ("mode".to_string(), texts(&["opt", "dbg"])),
    ];
    let got = expand("{{row.os}}-py{{row.py}}-{{row.mode}}", &matrix).unwrap();
    assert_eq!(got.len(), 12);
    assert_eq!(
        got,
        names(&[
            "linux-py3.9-opt",
            "linux-py3.9-dbg",
            "darwin-py3.9-opt",
            "darwin-py3.9-dbg",
            "linux-py3.10-opt",
            "linux-py3.10-dbg",
            "darwin-py3.10-opt",
            "darwin-py3.10-dbg",
            "linux-py4-opt",
            "linux-py4-dbg",
            "darwin-py4-opt",
            "darwin-py4-dbg",
        ])
    );
}

#[test]
fn one_dimension_expands_in_order() {
    let matrix = vec![("n".to_string(), vec![Version::Int(1), Version::Int(20), Version::Int(300)])];
    assert_eq!(expand("v{{n}}", &matrix).unwrap(), names(&["v1", "v20", "v300"]));
}

#[test]
fn four_dimensions_use_all_four() {
    let matrix = vec![
        ("a".to_string(), texts(&["1", "2"])),
        ("b".to_string(), texts(&["x"])),
        ("c".to_string(), texts(&["p", "q"])),
        ("d".to_string(), texts(&["m", "n"])),
    ];
    let got = expand("{{a}}{{b}}{{c}}{{d}}", &matrix).unwrap();
    assert_eq!(got, names(&["1xpm", "1xpn", "1xqm", "1xqn", "2xpm", "2xpn", "2xqm", "2xqn"]));
}

#[test]
fn five_dimensions_are_refused() {
    let matrix: Vec<(String, Vec<Version>)> =
        ["a", "b", "c", "d", "e"].iter().map(|k| (k.to_string(), texts(&["1"]))).collect();
    match expand("{{a}}", &matrix) {
        Err(ExpansionError::UnsupportedDimensionality { flavour, dimensions }) => {
            assert_eq!(flavour, "{{a}}");
            assert_eq!(dimensions, 5);
        }
        other => panic!("unexpected: {:?}", other),
    }
}

#[test]
fn no_dimension_is_refused() {
    match expand("name", &Vec::new()) {
        Err(ExpansionError::UnsupportedDimensionality { flavour, dimensions }) => {
            assert_eq!(flavour, "name");
            assert_eq!(dimensions, 0);
        }
        other => panic!("unexpected: {:?}", other),
    }
}

#[test]
fn the_number_of_dimensions_is_checked_before_the_template() {
    assert!(matches!(
        expand("{{", &Vec::new()),
        Err(ExpansionError::UnsupportedDimensionality { .. })
    ));
}

#[test]
fn unbound_placeholder_is_a_template_failure() {
    let matrix = vec![("os".to_string(), texts(&["linux"]))];
    let (template, cause) = fault(expand("build-{{row.os}}-{{row.arch}}", &matrix));
    assert_eq!(template, "build-{{row.os}}-{{row.arch}}");
    assert_eq!(cause, TemplateFault::Unbound);
}

#[test]
fn unbound_placeholder_fails_also_without_any_combination() {
    let matrix = vec![("os".to_string(), texts(&[]))];
    let (_, cause) = fault(expand("{{row.cpu}}", &matrix));
    assert_eq!(cause, TemplateFault::Unbound);
}

#[test]
fn the_whole_bindings_cannot_be_named() {
    let matrix = vec![("os".to_string(), texts(&["linux"]))];
    let (_, cause) = fault(expand("{{.}}", &matrix));
    assert_eq!(cause, TemplateFault::Unbound);
}

#[test]
fn malformed_template_is_a_template_failure() {
    let matrix = vec![("os".to_string(), texts(&["linux"]))];
    let (template, cause) = fault(expand("build-{{row.os", &matrix));
    assert_eq!(template, "build-{{row.os");
    assert_eq!(cause, TemplateFault::Malformed);
    let (_, cause) = fault(expand("{{#os}}never closed", &matrix));
    assert_eq!(cause, TemplateFault::Malformed);
    let (_, cause) = fault(expand("{{os}?}", &matrix));
    assert_eq!(cause, TemplateFault::Malformed);
}

#[test]
fn partials_and_delimiter_changes_are_refused() {
    let matrix = vec![("os".to_string(), texts(&["linux"]))];
    let (_, cause) = fault(expand("{{>other}}-{{os}}", &matrix));
    assert_eq!(cause, TemplateFault::Unsupported);
    let (_, cause) = fault(expand("{{=<% %>=}}<%os%>", &matrix));
    assert_eq!(cause, TemplateFault::Unsupported);
}

#[test]
fn a_template_without_tags_is_repeated() {
    let matrix = vec![("os".to_string(), texts(&["linux", "darwin"]))];
    assert_eq!(expand("same", &matrix).unwrap(), names(&["same", "same"]));
}

#[test]
fn an_empty_dimension_gives_no_name() {
    let matrix = vec![
        ("os".to_string(), texts(&["linux", "darwin"])),
        ("arch".to_string(), texts(&[])),
    ];
    assert_eq!(expand("{{os}}-{{arch}}", &matrix).unwrap(), Vec::<String>::new());
}

#[test]
fn values_are_rendered_in_their_textual_form() {
    let matrix = vec![(
        "v".to_string(),
        vec![Version::Int(7), Version::Float("7.1".to_string()), Version::String("7.3.2".to_string())],
    )];
    assert_eq!(expand("gcc-{{row.v}}", &matrix).unwrap(), names(&["gcc-7", "gcc-7.1", "gcc-7.3.2"]));
}

#[test]
fn escaped_and_unescaped_tags() {
    let matrix = vec![("v".to_string(), texts(&["a&b"]))];
    assert_eq!(expand("{{v}}", &matrix).unwrap(), names(&["a&amp;b"]));
    assert_eq!(expand("{{{v}}}", &matrix).unwrap(), names(&["a&b"]));
    assert_eq!(expand("{{&v}}", &matrix).unwrap(), names(&["a&b"]));
}

#[test]
fn of_two_equal_keys_the_later_counts() {
    let matrix = vec![
        ("k".to_string(), texts(&["first"])),
        ("k".to_string(), texts(&["second", "third"])),
    ];
    assert_eq!(expand("{{k}}", &matrix).unwrap(), names(&["second", "third"]));
}

#[test]
fn gather_returns_all_or_fails() {
    let all = vec![Some("a".to_string()), Some("b".to_string())];
    assert_eq!(gather("t", all).unwrap(), names(&["a", "b"]));
    assert_eq!(gather("t", Vec::new()).unwrap(), Vec::<String>::new());
    let (template, cause) = fault(gather("t-{{x}}", vec![Some("a".to_string()), None, Some("c".to_string())]));
    assert_eq!(template, "t-{{x}}");
    assert_eq!(cause, TemplateFault::Unrendered);
}

#[test]
fn keys_and_texts_of_a_matrix() {
    let matrix = vec![
        ("os".to_string(), texts(&["linux"])),
        ("n".to_string(), vec![Version::Int(12), Version::Float("1.5".to_string())]),
    ];
    assert_eq!(dimension_keys(&matrix), names(&["os", "n"]));
    assert_eq!(dimension_texts(&matrix), vec![names(&["linux"]), names(&["12", "1.5"])]);
}
