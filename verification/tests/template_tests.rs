use keyvault::model::Param;
use keyvault::template::{extract_param_names, format_template, sync_params};

fn p(name: &str, value: &str) -> Param {
    Param { name: name.to_string(), value: value.to_string() }
}

#[test]
fn extract_finds_placeholders_in_order() {
    assert_eq!(
        extract_param_names("http://{{base_url}}/api/{{path}}"),
        vec!["base_url".to_string(), "path".to_string()]
    );
}

#[test]
fn extract_trims_dedups_and_skips_empty_names() {
    assert_eq!(
        extract_param_names("{{ a }} {{a}} {{\tb\n}} {{ }} {{}}"),
        vec!["a".to_string(), "b".to_string()]
    );
}

#[test]
fn extract_respects_braces() {
    assert_eq!(extract_param_names("{{{x}}}"), vec!["x".to_string()]);
    assert!(extract_param_names("{{a}b}}").is_empty());
    assert!(extract_param_names("{ {a} }").is_empty());
    assert_eq!(extract_param_names("{{a b}}{{c}}"), vec!["a b".to_string(), "c".to_string()]);
}

#[test]
fn format_substitutes_values() {
    let params = vec![p("base_url", "localhost:8080"), p("path", "v1/users")];
    assert_eq!(
        format_template("http://{{base_url}}/api/{{ path }}", &params),
        "http://localhost:8080/api/v1/users"
    );
}

#[test]
fn format_keeps_unknown_placeholders() {
    let params = vec![p("other", "x")];
    assert_eq!(format_template("hi {{ name }}!", &params), "hi {{ name }}!");
    assert_eq!(format_template("no placeholders", &[]), "no placeholders");
    assert_eq!(format_template("{{a}}{{b}}", &[]), "{{a}}{{b}}");
}

#[test]
fn format_uses_first_param_of_a_name() {
    let params = vec![p("a", "1"), p("a", "2")];
    assert_eq!(format_template("{{a}}-{{a}}", &params), "1-1");
}

#[test]
fn format_blank_placeholder_matches_unnamed_param() {
    let params = vec![p("", "Z")];
    assert_eq!(format_template("[{{ }}]", &params), "[Z]");
}

#[test]
fn sync_adds_missing_params_once() {
    let mut params = vec![p("path", "v1")];
    sync_params("{{base}}/{{path}}/{{base}}", &mut params);
    assert_eq!(params.len(), 2);
    assert_eq!(params[0].name, "path");
    assert_eq!(params[0].value, "v1");
    assert_eq!(params[1].name, "base");
    assert_eq!(params[1].value, "");
    sync_params("{{base}}/{{path}}", &mut params);
    assert_eq!(params.len(), 2);
}
