use lfml::html::generate_markup_expr;
use lfml::render::Bindings;

fn html(template: &str) -> String {
    let compiled = generate_markup_expr(template).unwrap();
    compiled.render(&Bindings::new()).unwrap()
}

#[test]
fn named_block() {
    assert_eq!(html("a {}"), "<a></a>");

    assert_eq!(
        html(
            r#"
        a {
            "Hello"
        }
    "#
        ),
        "<a>Hello</a>"
    );

    assert_eq!(
        html(
            r#"
        a {
            "Hello"
            b {
                "World"
            }
        }
    "#
        ),
        "<a>Hello<b>World</b></a>"
    );
}

#[test]
fn anon_block() {
    assert_eq!(html(r#"{ "foo" "bar" }"#), "foobar");

    assert_eq!(html(r#""foo" { "bar" } "baz""#), "foobarbaz");
}

#[test]
fn semicolons() {
    assert_eq!(
        html(
            r#"
        "one";
        "two";
        "three";
        ;;;;;;;;;;;;;;;;;;;;;;;;
        "four";
    "#
        ),
        "onetwothreefour"
    );
}

#[test]
fn self_closing_tag() {
    assert_eq!(html("link;"), "<link>");

    assert_eq!(html(r#""bob" br; "jerry""#), "bob<br>jerry");
}

#[test]
fn self_closing_tag_repeated() {
    assert_eq!(html("link; link;"), "<link><link>");
}

#[test]
fn idents_with_hyphens_in_names() {
    assert_eq!(html(r#"a-b { "Foo" }"#), "<a-b>Foo</a-b>");
}
