use boxmux::variables::{substitute_variables, VariableContext};

fn table(pairs: &[(&str, &str)]) -> Vec<(String, String)> {
    pairs.iter().map(|(k, v)| (k.to_string(), v.to_string())).collect()
}

#[test]
fn test_substitute_default_and_env() {
    let env = table(&[("USER", "alice")]);
    assert_eq!(substitute_variables("hi ${USER}", &env).unwrap(), "hi alice");
    assert_eq!(substitute_variables("${MISSING:fallback}!", &env).unwrap(), "fallback!");
    assert_eq!(substitute_variables("${MISSING}", &env).unwrap(), "");
    assert_eq!(substitute_variables("$USER and $NOPE", &env).unwrap(), "alice and $NOPE");
    assert_eq!(substitute_variables("no variables here", &env).unwrap(), "no variables here");
    assert_eq!(substitute_variables("cost $5 and ${", &env).unwrap(), "cost $5 and ${");
}

#[test]
fn test_substitute_nested_is_refused() {
    let env = table(&[]);
    let err = substitute_variables("x ${A:${B}} y", &env).unwrap_err();
    assert_eq!(
        err,
        "Nested variable substitution is not supported. Found: '${A:${B}' - Use simple variables only."
    );
}

#[test]
fn test_precedence_of_tables() {
    let app = table(&[("NAME", "app"), ("ONLY_APP", "a")]);
    let layout = table(&[("NAME", "layout")]);
    let ctx = VariableContext::new(Some(&app), Some(&layout));
    let env = table(&[("NAME", "env"), ("ONLY_ENV", "e")]);
    let boxes = vec![table(&[("NAME", "child")]), table(&[("NAME", "parent"), ("P", "p")])];
    assert_eq!(ctx.resolve_variable("NAME", "d", &boxes, &env), "child");
    assert_eq!(ctx.resolve_variable("P", "d", &boxes, &env), "p");
    assert_eq!(ctx.resolve_variable("NAME", "d", &vec![], &env), "layout");
    assert_eq!(ctx.resolve_variable("ONLY_APP", "d", &vec![], &env), "a");
    assert_eq!(ctx.resolve_variable("ONLY_ENV", "d", &vec![], &env), "e");
    assert_eq!(ctx.resolve_variable("NONE", "d", &vec![], &env), "d");
    assert_eq!(
        ctx.substitute_in_string("${NAME}/$ONLY_APP/${NONE:x}", &boxes, &env).unwrap(),
        "child/a/x"
    );
}

#[test]
fn test_dollar_pass_sees_braces_result() {
    let env = table(&[("A", "$B"), ("B", "bee")]);
    assert_eq!(substitute_variables("${A}", &env).unwrap(), "bee");
}

#[test]
fn test_outer_inner_nested_is_refused() {
    let env = table(&[("INNER", "x")]);
    let err = substitute_variables("${OUTER_${INNER}}", &env).unwrap_err();
    assert_eq!(
        err,
        "Nested variable substitution is not supported. Found: '${OUTER_${INNER}' - Use simple variables only."
    );
}

#[test]
fn test_unset_name_gives_exact_fallback() {
    let env = table(&[("OTHER", "o")]);
    assert_eq!(substitute_variables("${NAME:fallback}", &env).unwrap(), "fallback");
    assert_eq!(substitute_variables("plain text", &env).unwrap(), "plain text");
}
