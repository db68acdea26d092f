use maniparse::expand::{ExpansionError, TemplateFault};
use maniparse::manifest::{Flavours, Manifest, RecipeInner, Tools};
use maniparse::version::Version;

fn bare(name: &str) -> Manifest {
    Manifest {
        name: name.to_string(),
        version: "1.0.0".to_string(),
        supports: None,
        load_requires: None,
        build_requires: None,
        test_requires: None,
        system_requires: None,
        requires: None,
        platforms: None,
        sites: None,
        recipes: None,
        flavours: None,
        exports: None,
    }
}

fn simple(name: &str) -> Flavours {
    Flavours::Simple {
        name: name.to_string(),
        load_requires: None,
        build_requires: None,
        test_requires: None,
        system_requires: None,
        supports: None,
        platforms: None,
        sites: None,
    }
}

fn with_recipes(name: &str) -> Flavours {
    Flavours::Recipe {
        name: name.to_string(),
        recipes: vec![(
            "build".to_string(),
            RecipeInner { requires: None, load_requires: None, steps: vec!["make".to_string()], contributors: None },
        )],
        load_requires: None,
        build_requires: None,
        test_requires: None,
        system_requires: None,
        supports: None,
        platforms: None,
        sites: None,
    }
}

fn matrix(name: &str, dims: &[(&str, &[&str])]) -> Flavours {
    Flavours::Matrix {
        name: name.to_string(),
        matrix: dims
            .iter()
            .map(|(k, vs)| (k.to_string(), vs.iter().map(|v| Version::String(v.to_string())).collect()))
            .collect(),
        requires: None,
        load_requires: None,
        test_requires: None,
        build_requires: None,
        system_requires: None,
        supports: None,
    }
}

#[test]
fn name_and_version() {
    let m = bare("pkg");
    assert_eq!(m.name(), "pkg");
    assert_eq!(m.version(), "1.0.0");
}

#[test]
fn bare_manifest_has_no_flavour() {
    assert_eq!(bare("pkg").flavors().unwrap(), Vec::<String>::new());
    let mut m = bare("pkg");
    m.flavours = Some(Vec::new());
    assert_eq!(m.flavors().unwrap(), Vec::<String>::new());
}

#[test]
fn own_requirements_give_the_mark() {
    let mut m = bare("pkg");
    m.requires = Some(vec![("gcc".to_string(), Version::Int(7))]);
    assert_eq!(m.flavors().unwrap(), vec!["^".to_string()]);
}

#[test]
fn own_recipes_give_the_mark() {
    let mut m = bare("pkg");
    m.recipes = Some(Vec::new());
    assert_eq!(m.flavors().unwrap(), vec!["^".to_string()]);
}

#[test]
fn other_requirements_give_no_mark() {
    let mut m = bare("pkg");
    m.load_requires = Some(vec![("gcc".to_string(), Version::Int(7))]);
    m.build_requires = Some(Vec::new());
    assert_eq!(m.flavors().unwrap(), Vec::<String>::new());
}

#[test]
fn flavours_come_in_the_order_of_the_manifest() {
    let mut m = bare("pkg");
    m.requires = Some(Vec::new());
    m.flavours = Some(vec![
        simple("first"),
        matrix("m-{{row.os}}-{{row.n}}", &[("os", &["l", "d"]), ("n", &["1", "2"])]),
        with_recipes("last"),
    ]);
    assert_eq!(
        m.flavors().unwrap(),
        vec!["^", "first", "m-l-1", "m-l-2", "m-d-1", "m-d-2", "last"]
            .into_iter()
            .map(String::from)
            .collect::<Vec<_>>()
    );
}

#[test]
fn names_are_taken_as_they_stand() {
    let mut m = bare("pkg");
    m.flavours = Some(vec![simple("{{not.a.template}}"), with_recipes("row.x")]);
    assert_eq!(m.flavors().unwrap(), vec!["{{not.a.template}}".to_string(), "row.x".to_string()]);
}

#[test]
fn one_failing_flavour_fails_the_call() {
    let mut m = bare("pkg");
    m.requires = Some(Vec::new());
    m.flavours = Some(vec![
        simple("fine"),
        matrix("bad-{{row.cpu}}", &[("os", &["l"])]),
        matrix("worse", &[]),
    ]);
    match m.flavors() {
        Err(ExpansionError::TemplateFailure { template, cause }) => {
            assert_eq!(template, "bad-{{row.cpu}}");
            assert_eq!(cause, TemplateFault::Unbound);
        }
        other => panic!("unexpected: {:?}", other),
    }
}

#[test]
fn a_matrix_with_five_dimensions_fails_the_call() {
    let mut m = bare("pkg");
    m.flavours = Some(vec![matrix(
        "x",
        &[("a", &["1"]), ("b", &["1"]), ("c", &["1"]), ("d", &["1"]), ("e", &["1"])],
    )]);
    match m.flavors() {
        Err(ExpansionError::UnsupportedDimensionality { flavour, dimensions }) => {
            assert_eq!(flavour, "x");
            assert_eq!(dimensions, 5);
        }
        other => panic!("unexpected: {:?}", other),
    }
}

#[test]
fn exports_of_a_manifest_without_exports() {
    let m = bare("pkg");
    assert_eq!(m.export_keys(), None);
    assert_eq!(m.exports_for("tools"), None);
    assert_eq!(m.tools(), Vec::<&str>::new());
}

#[test]
fn a_missing_category_is_told_from_an_empty_one() {
    let mut m = bare("pkg");
    m.exports = Some(vec![
        ("tools".to_string(), vec!["cc".to_string(), "ld".to_string()]),
        ("empty".to_string(), Vec::new()),
    ]);
    assert_eq!(m.exports_for("missing-category"), None);
    assert_eq!(m.exports_for("empty"), Some(Vec::new()));
    assert_eq!(m.exports_for("tools"), Some(vec!["cc", "ld"]));
    assert_eq!(m.exports_for("Tools"), None);
    assert_eq!(m.tools(), vec!["cc", "ld"]);
    assert_eq!(m.export_keys(), Some(vec!["tools", "empty"]));
}

#[test]
fn tools_is_empty_without_the_category() {
    let mut m = bare("pkg");
    m.exports = Some(vec![("libs".to_string(), vec!["libm".to_string()])]);
    assert_eq!(m.tools(), Vec::<&str>::new());
    assert_eq!(m.exports_for("libs"), Some(vec!["libm"]));
}

#[test]
fn of_two_equal_categories_the_first_is_found() {
    let mut m = bare("pkg");
    m.exports = Some(vec![
        ("tools".to_string(), vec!["a".to_string()]),
        ("tools".to_string(), vec!["b".to_string()]),
    ]);
    assert_eq!(m.tools(), vec!["a"]);
}

#[test]
fn tools_struct_holds_its_list() {
    let t = Tools { tools: vec!["cc".to_string()] };
    assert_eq!(t, Tools { tools: vec!["cc".to_string()] });
    assert_eq!(t.tools.len(), 1);
}
