use lfml::html::generate_markup_expr;
use lfml::render::{Bindings, Value};

fn html(template: &str, bindings: &Bindings) -> String {
    let compiled = generate_markup_expr(template).unwrap();
    compiled.render(bindings).unwrap()
}

fn bound(fragment: &str, value: Value) -> Bindings {
    let mut bindings = Bindings::new();
    bindings.set(fragment, value).unwrap();
    bindings
}

fn text(value: &str) -> Value {
    Value::Text(value.to_string())
}

#[test]
fn markup_body() {
    let x = "foobar";

    assert_eq!(html("(x)", &bound("x", text(x))), "foobar");

    let x = 3;

    assert_eq!(html("(x)", &bound("x", text(&x.to_string()))), "3");

    let x = html(r#"a { "Foo" }"#, &Bindings::new());

    assert_eq!(html("(x)", &bound("x", Value::Markup(x))), "<a>Foo</a>");
}

#[test]
fn interpolate_attrs() {
    let x = "bar";

    assert_eq!(
        html(r#"a foo=(x) { "Hello" }"#, &bound("x", text(x))),
        "<a foo=\"bar\">Hello</a>"
    );

    let x = 3;

    assert_eq!(
        html(r#"a foo=(x) { "Hello" }"#, &bound("x", text(&x.to_string()))),
        "<a foo=\"3\">Hello</a>"
    );
}

#[test]
fn interpolate_attrs_content_is_escaped() {
    let x = "<danger>";

    assert_eq!(
        html(r#"a foo=(x) { "Hello" }"#, &bound("x", text(x))),
        "<a foo=\"&lt;danger&gt;\">Hello</a>"
    );
}

#[test]
fn interpolate_attrs_without_values_can_be_toggled_with_boolean_valued_expressions() {
    let x = true;

    assert_eq!(
        html(r#"a foo[x] { "Hello" }"#, &bound("x", Value::Flag(x))),
        "<a foo>Hello</a>"
    );

    let x = false;

    assert_eq!(
        html(r#"a foo[x] { "Hello" }"#, &bound("x", Value::Flag(x))),
        "<a>Hello</a>"
    );
}

#[test]
fn interpolate_attrs_with_values_can_be_toggled_with_option_valued_expressions() {
    let x = Some(3);

    assert_eq!(
        html(
            r#"a foo=[x] { "Hello" }"#,
            &bound("x", x.map_or(Value::Absent, |v| text(&v.to_string())))
        ),
        "<a foo=\"3\">Hello</a>"
    );

    let x: Option<i32> = None;

    assert_eq!(
        html(
            r#"a foo=[x] { "Hello" }"#,
            &bound("x", x.map_or(Value::Absent, |v| text(&v.to_string())))
        ),
        "<a>Hello</a>"
    );
}

#[test]
fn attrs_attrs() {
    let x = "bar";

    assert_eq!(
        html(r#"a foo=(x) { "Hello" }"#, &bound("x", text(x))),
        "<a foo=\"bar\">Hello</a>"
    );

    let x = 3;

    assert_eq!(
        html(r#"a foo=(x) { "Hello" }"#, &bound("x", text(&x.to_string()))),
        "<a foo=\"3\">Hello</a>"
    );
}

#[test]
fn attrs_attrs_content_is_escaped() {
    let x = "<danger>";

    assert_eq!(
        html(r#"a foo=(x) { "Hello" }"#, &bound("x", text(x))),
        "<a foo=\"&lt;danger&gt;\">Hello</a>"
    );
}

#[test]
fn attrs_attrs_without_values_can_be_toggled_with_boolean_valued_expressions() {
    let x = true;

    assert_eq!(
        html(r#"a foo[x] { "Hello" }"#, &bound("x", Value::Flag(x))),
        "<a foo>Hello</a>"
    );

    let x = false;

    assert_eq!(
        html(r#"a foo[x] { "Hello" }"#, &bound("x", Value::Flag(x))),
        "<a>Hello</a>"
    );
}

#[test]
fn attrs_attrs_with_values_can_be_toggled_with_option_valued_expressions() {
    let x = Some(3);

    assert_eq!(
        html(
            r#"a foo=[x] { "Hello" }"#,
            &bound("x", x.map_or(Value::Absent, |v| text(&v.to_string())))
        ),
        "<a foo=\"3\">Hello</a>"
    );

    let x: Option<i32> = None;

    assert_eq!(
        html(
            r#"a foo=[x] { "Hello" }"#,
            &bound("x", x.map_or(Value::Absent, |v| text(&v.to_string())))
        ),
        "<a>Hello</a>"
    );
}
