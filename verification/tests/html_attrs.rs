use lfml::html::generate_markup_expr;
use lfml::render::Bindings;

fn html(template: &str) -> String {
    let compiled = generate_markup_expr(template).unwrap();
    compiled.render(&Bindings::new()).unwrap()
}

#[test]
fn without_value() {
    assert_eq!(html("a foo {}"), "<a foo></a>");

    assert_eq!(html("a foo bar {}"), "<a foo bar></a>");
}

#[test]
fn with_value() {
    assert_eq!(html(r#"a foo="bar" {}"#), "<a foo=\"bar\"></a>");

    assert_eq!(
        html(
            r#"a foo=3 bar=3.5 baz=true bat='a' car=b'a' cat=b"Hello \xF0\x90\x80World" {}"#
        ),
        "<a foo=\"3\" bar=\"3.5\" baz=\"true\" bat=\"a\" car=\"a\" cat=\"Hello \u{FFFD}World\"></a>"
    );
}

#[test]
fn mix_of_two_types_of_attrs() {
    assert_eq!(html(r#"a foo="bar" baz {}"#), "<a foo=\"bar\" baz></a>");

    assert_eq!(html(r#"a foo bar="baz" {}"#), "<a foo bar=\"baz\"></a>");
}

#[test]
fn self_closing_tags() {
    assert_eq!(html("a foo;"), "<a foo>");

    assert_eq!(html("a foo; b {}"), "<a foo><b></b>");

    assert_eq!(html(r#"a foo="bar"; b {}"#), "<a foo=\"bar\"><b></b>");
}

#[test]
fn attr_names_with_hyphens() {
    assert_eq!(html("a foo-bar;"), "<a foo-bar>");

    assert_eq!(html(r#"a-b foo-bar="baz";"#), "<a-b foo-bar=\"baz\">");
}

#[test]
fn attr_id_and_class() {
    assert_eq!(html(r#"."" {}"#), "<div class=\"\"></div>");

    assert_eq!(html(r#"a-b foo-bar="baz";"#), "<a-b foo-bar=\"baz\">");
}
