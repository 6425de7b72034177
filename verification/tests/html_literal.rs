use lfml::html::generate_markup_expr;
use lfml::render::Bindings;

fn html(template: &str) -> String {
    let compiled = generate_markup_expr(template).unwrap();
    compiled.render(&Bindings::new()).unwrap()
}

#[test]
fn string() {
    assert_eq!(html(r#""du\tcks""#), "du\tcks");

    assert_eq!(html("'a'"), "a");
}

#[test]
fn concatenation() {
    assert_eq!(
        html(r#""du\tcks" "-23" "3.14\n" "geese""#),
        "du\tcks-233.14\ngeese"
    );
}

#[test]
fn not_string_that_impl_display() {
    assert_eq!(html("3"), "3");

    assert_eq!(html(r#"true " " false"#), "true false");
}

#[test]
fn negative_numbers() {
    assert_eq!(html("-1"), "-1");

    assert_eq!(html("-1.5 -3.75"), "-1.5-3.75");
}

#[test]
fn byte_strings() {
    assert_eq!(html(r#"b"foobar""#), "foobar");

    assert_eq!(
        html(r#"b"Hello \xF0\x90\x80World""#),
        "Hello \u{FFFD}World"
    );
}

#[test]
fn byte() {
    assert_eq!(html("b'f'"), "f");
}

#[test]
fn float() {
    assert_eq!(html("1f64 2f32"), "12");

    assert_eq!(html("1.0 2.5 3.25f64"), "12.53.25");
}

#[test]
fn is_escaped() {
    assert_eq!(html(r#""<>""#), "&lt;&gt;")
}
