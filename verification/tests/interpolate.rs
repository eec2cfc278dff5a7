use i18n::interpolate::{interpolate, ArgValue, Args};

fn args_of(pairs: &[(&str, ArgValue)]) -> Args {
    let mut args = Args::new();
    for (name, value) in pairs {
        let v = match value {
            ArgValue::Text(s) => ArgValue::Text(s.clone()),
            ArgValue::Int(i) => ArgValue::Int(*i),
            ArgValue::Flag(b) => ArgValue::Flag(*b),
        };
        args.push((*name).to_string(), v);
    }
    args
}

#[test]
fn replaces_named_token() {
    let args = args_of(&[("name", ArgValue::Text("World".to_string()))]);
    assert_eq!(interpolate("Hello {{name}}", &args), "Hello World");
}

#[test]
fn missing_argument_renders_marker() {
    let args = Args::new();
    assert_eq!(interpolate("Hi {{name}}", &args), "Hi ??");
    let other = args_of(&[("other", ArgValue::Text("x".to_string()))]);
    assert_eq!(interpolate("Hi {{name}}", &other), "Hi ??");
}

#[test]
fn no_token_returns_template_unchanged() {
    let args = args_of(&[("name", ArgValue::Text("World".to_string()))]);
    assert_eq!(interpolate("Hello name", &args), "Hello name");
    assert_eq!(interpolate("single {brace}", &args), "single {brace}");
}

#[test]
fn replaces_several_tokens() {
    let args = args_of(&[
        ("a", ArgValue::Text("1".to_string())),
        ("b", ArgValue::Text("2".to_string())),
    ]);
    assert_eq!(interpolate("{{a}}+{{b}}={{c}}", &args), "1+2=??");
}

#[test]
fn renders_integer_and_boolean_arguments() {
    let args = args_of(&[
        ("n", ArgValue::Int(-42)),
        ("z", ArgValue::Int(0)),
        ("big", ArgValue::Int(9007199254740991)),
        ("yes", ArgValue::Flag(true)),
        ("no", ArgValue::Flag(false)),
    ]);
    assert_eq!(interpolate("{{n}} {{z}} {{big}} {{yes}} {{no}}", &args), "-42 0 9007199254740991 true false");
}

#[test]
fn dotted_identifiers_are_tokens() {
    let args = args_of(&[("user.name", ArgValue::Text("Ada".to_string()))]);
    assert_eq!(interpolate("Hi {{user.name}}", &args), "Hi Ada");
}

#[test]
fn extra_braces_stay_literal() {
    let args = args_of(&[("a", ArgValue::Text("X".to_string()))]);
    assert_eq!(interpolate("{{{a}}}", &args), "{X}");
    assert_eq!(interpolate("{{}}", &args), "{{}}");
    assert_eq!(interpolate("{{a}b}}", &args), "{{a}b}}");
}

#[test]
fn substituted_values_are_not_rescanned() {
    let args = args_of(&[
        ("a", ArgValue::Text("{{b}}".to_string())),
        ("b", ArgValue::Text("inner".to_string())),
    ]);
    assert_eq!(interpolate("{{a}}", &args), "{{b}}");
}

#[test]
fn first_binding_of_a_name_wins() {
    let args = args_of(&[
        ("a", ArgValue::Text("first".to_string())),
        ("a", ArgValue::Text("second".to_string())),
    ]);
    assert_eq!(interpolate("{{a}}", &args), "first");
}

#[test]
fn renders_extreme_integers() {
    let args = args_of(&[
        ("min", ArgValue::Int(i64::MIN)),
        ("max", ArgValue::Int(i64::MAX)),
    ]);
    assert_eq!(
        interpolate("{{min}} {{max}}", &args),
        "-9223372036854775808 9223372036854775807"
    );
}
