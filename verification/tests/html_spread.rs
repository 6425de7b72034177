use lfml::html::generate_markup_expr;
use lfml::render::{Bindings, Value};
use lfml::spread::generate::{generate_spread_impl, SpreadImpl};
use lfml::spread::input::{
    AttrStyle, Attribute, Data, DeriveInput, Field, FieldType, Fields, Meta, MetaValue, Variant,
};
use lfml::spread::instance::{FieldValue, Instance};
use lfml::spread::syntax::SpreadInput;
use lfml::token::tokenize;

fn html(template: &str, bindings: &Bindings) -> String {
    let compiled = generate_markup_expr(template).unwrap();
    compiled.render(bindings).unwrap()
}

fn bound(fragment: &str, value: Value) -> Bindings {
    let mut bindings = Bindings::new();
    bindings.set(fragment, value).unwrap();
    bindings
}

fn path(name: &str) -> Attribute {
    Attribute {
        style: AttrStyle::Outer,
        meta: Meta::Path {
            path: Some(name.to_string()),
        },
    }
}

fn name_value(name: &str, value: &str) -> Attribute {
    Attribute {
        style: AttrStyle::Outer,
        meta: Meta::NameValue {
            path: Some(name.to_string()),
            value: MetaValue::Str(value.to_string()),
        },
    }
}

fn tags(list: &str) -> Attribute {
    Attribute {
        style: AttrStyle::Outer,
        meta: Meta::List {
            path: Some("tags".to_string()),
            tokens: tokenize(list).unwrap(),
        },
    }
}

fn fields(names: &[&str]) -> Fields {
    Fields::Named(
        names
            .iter()
            .map(|name| Field {
                attrs: vec![],
                ident: name.to_string(),
                ty: FieldType {
                    head: None,
                    arg: None,
                },
            })
            .collect(),
    )
}

fn variant(attrs: Vec<Attribute>, name: &str, field_names: &[&str]) -> Variant {
    Variant {
        attrs,
        ident: name.to_string(),
        fields: fields(field_names),
    }
}

fn derive(attrs: Vec<Attribute>, name: &str, data: Data) -> SpreadImpl {
    let input = DeriveInput {
        attrs,
        ident: name.to_string(),
        generics: vec![],
        data,
    };
    generate_spread_impl(SpreadInput::parse(input).unwrap())
}

fn spread(imp: &SpreadImpl, variant: Option<&str>, values: &[(&str, &str)]) -> Value {
    let instance = Instance {
        variant: variant.map(str::to_string),
        fields: values
            .iter()
            .map(|(name, value)| (name.to_string(), FieldValue::Text(value.to_string())))
            .collect(),
    };
    Value::Attrs(imp.bundle(&instance).unwrap())
}

#[test]
fn enum_basic() {
    let hx_control = derive(
        vec![name_value("prefix", "hx")],
        "HxControl",
        Data::Enum(vec![
            variant(vec![], "Get", &["get"]),
            variant(vec![], "Post", &["post"]),
        ]),
    );

    let x = spread(&hx_control, Some("Get"), &[("get", "/")]);

    assert_eq!(
        html(r#"a@(x) { "A" }"#, &bound("x", x)),
        "<a hx-get=\"/\">A</a>"
    );

    let x = spread(&hx_control, Some("Post"), &[("post", "/")]);

    assert_eq!(
        html(r#"a@(x) { "A" }"#, &bound("x", x)),
        "<a hx-post=\"/\">A</a>"
    );

    let a = derive(
        vec![tags("include(a, b, c)")],
        "A",
        Data::Enum(vec![
            variant(vec![], "Bar", &["a"]),
            variant(vec![], "Baz", &["b"]),
        ]),
    );

    let y = Instance {
        variant: Some("Bar".to_string()),
        fields: vec![("a".to_string(), FieldValue::Text("a".to_string()))],
    };

    assert_eq!(a.raw(&y).unwrap(), " a=\"a\"");

    let y = Instance {
        variant: Some("Baz".to_string()),
        fields: vec![("b".to_string(), FieldValue::Text("a".to_string()))],
    };

    assert_eq!(a.raw(&y).unwrap(), " b=\"a\"");
}

#[test]
fn enum_restrict_attribute() {
    let hx_control = derive(
        vec![name_value("prefix", "hx"), tags("only(a, b, c)")],
        "HxControl",
        Data::Enum(vec![
            variant(vec![], "Get", &["get", "target", "swap"]),
            variant(vec![], "Post", &["post", "target", "swap"]),
        ]),
    );
    let get = r#"HxControl::Get { get: "/a", target: ".main", swap: "outerHTML" }"#;
    let post = r#"HxControl::Post { post: "/a", target: ".main", swap: "outerHTML" }"#;
    let mut bindings = Bindings::new();
    bindings
        .set(
            get,
            spread(
                &hx_control,
                Some("Get"),
                &[("get", "/a"), ("target", ".main"), ("swap", "outerHTML")],
            ),
        )
        .unwrap();
    bindings
        .set(
            post,
            spread(
                &hx_control,
                Some("Post"),
                &[("post", "/a"), ("target", ".main"), ("swap", "outerHTML")],
            ),
        )
        .unwrap();

    assert_eq!(
        html(
            r#"
        a@(HxControl::Get { get: "/a", target: ".main", swap: "outerHTML" }) { "A" }
        a@(HxControl::Post { post: "/a", target: ".main", swap: "outerHTML" }) { "A" }
    "#,
            &bindings
        ),
        "<a hx-get=\"/a\" hx-target=\".main\" hx-swap=\"outerHTML\">A</a><a hx-post=\"/a\" hx-target=\".main\" hx-swap=\"outerHTML\">A</a>"
    );

    assert_eq!(
        html(
            r#"
        b@(HxControl::Get { get: "/a", target: ".main", swap: "outerHTML" }) { "A" }
        b@(HxControl::Post { post: "/a", target: ".main", swap: "outerHTML" }) { "A" }
    "#,
            &bindings
        ),
        "<b hx-get=\"/a\" hx-target=\".main\" hx-swap=\"outerHTML\">A</b><b hx-post=\"/a\" hx-target=\".main\" hx-swap=\"outerHTML\">A</b>"
    );
    assert_eq!(
        html(
            r#"
        c@(HxControl::Get { get: "/a", target: ".main", swap: "outerHTML" }) { "A" }
        c@(HxControl::Post { post: "/a", target: ".main", swap: "outerHTML" }) { "A" }
    "#,
            &bindings
        ),
        "<c hx-get=\"/a\" hx-target=\".main\" hx-swap=\"outerHTML\">A</c><c hx-post=\"/a\" hx-target=\".main\" hx-swap=\"outerHTML\">A</c>"
    );
}

#[test]
fn multiple() {
    let foo = derive(
        vec![tags("only(a)")],
        "Foo",
        Data::Struct(fields(&["target"])),
    );

    let bar = derive(
        vec![tags("only(a)")],
        "Bar",
        Data::Enum(vec![variant(vec![], "Baz", &["get"])]),
    );

    let mut bindings = Bindings::new();
    bindings
        .set("x", spread(&bar, Some("Baz"), &[("get", "/")]))
        .unwrap();
    bindings
        .set(
            r#"Foo { target: ".main" }"#,
            spread(&foo, None, &[("target", ".main")]),
        )
        .unwrap();

    assert_eq!(
        html(
            r#"
        a @(Foo { target: ".main" }) @(x) {
            "A"
        }
    "#,
            &bindings
        ),
        "<a target=\".main\" get=\"/\">A</a>"
    );
}

#[test]
fn prefix_precedent() {
    let bar = derive(
        vec![path("prefix")],
        "Bar",
        Data::Enum(vec![
            variant(vec![], "Baz", &["get"]),
            variant(vec![name_value("prefix", "x-data")], "Bat", &["get"]),
        ]),
    );

    let mut bindings = Bindings::new();
    bindings
        .set("x", spread(&bar, Some("Baz"), &[("get", "/")]))
        .unwrap();
    bindings
        .set(
            r#"Bar::Bat { get: "/" }"#,
            spread(&bar, Some("Bat"), &[("get", "/")]),
        )
        .unwrap();

    assert_eq!(
        html(
            r#"
        a @(x) {
            "A"
        }
        a @(Bar::Bat { get: "/" });
    "#,
            &bindings
        ),
        "<a data-get=\"/\">A</a><a x-data-get=\"/\">"
    );
}

#[test]
fn enum_option_type_with_toggle_syntax() {
    let foo = derive(
        vec![tags("include(a)")],
        "Foo",
        Data::Struct(fields(&["target"])),
    );

    let x = Some(spread(&foo, None, &[("target", ".main")]));

    assert_eq!(
        html(
            r#"
        a @[x] {
            "A"
        }
    "#,
            &bound("x", x.unwrap_or(Value::Absent))
        ),
        "<a target=\".main\">A</a>"
    );

    let x: Option<Value> = None;

    assert_eq!(
        html(
            r#"
        a @[x] {
            "A"
        }
    "#,
            &bound("x", x.unwrap_or(Value::Absent))
        ),
        "<a>A</a>"
    );
}

fn hx_get(attrs: Vec<Attribute>) -> SpreadImpl {
    derive(attrs, "HxGet", Data::Struct(fields(&["get", "target", "swap"])))
}

#[test]
fn struct_basic() {
    let a = derive(
        vec![],
        "A",
        Data::Struct(Fields::Named(vec![
            Field {
                attrs: vec![],
                ident: "foo".to_string(),
                ty: FieldType {
                    head: Some("i32".to_string()),
                    arg: None,
                },
            },
            Field {
                attrs: vec![],
                ident: "bar".to_string(),
                ty: FieldType {
                    head: None,
                    arg: None,
                },
            },
        ])),
    );

    let y = Instance {
        variant: None,
        fields: vec![
            ("foo".to_string(), FieldValue::Text(0.to_string())),
            ("bar".to_string(), FieldValue::Text("a".to_string())),
        ],
    };

    assert_eq!(a.raw(&y).unwrap(), " foo=\"0\" bar=\"a\"");

    let imp = hx_get(vec![name_value("prefix", "hx")]);
    let values = [("get", "/a"), ("target", ".main"), ("swap", "outerHTML")];
    let mut bindings = bound("x", spread(&imp, None, &values));
    bindings
        .set(
            r#"HxGet { get: "/a", target: ".main", swap: "outerHTML", }"#,
            spread(&imp, None, &values),
        )
        .unwrap();

    assert_eq!(
        html(r#"a@(x) { "A" }"#, &bindings),
        "<a hx-get=\"/a\" hx-target=\".main\" hx-swap=\"outerHTML\">A</a>"
    );

    assert_eq!(
        html(
            r#"
        div@(
            HxGet {
                get: "/a",
                target: ".main",
                swap: "outerHTML",
            }
        ) {
            "A"
        }
    "#,
            &bindings
        ),
        "<div hx-get=\"/a\" hx-target=\".main\" hx-swap=\"outerHTML\">A</div>"
    );
}

#[test]
fn struct_restrict_attribute() {
    let imp = hx_get(vec![name_value("prefix", "hx"), tags("only(a, b, c)")]);
    let values = [("get", "/a"), ("target", ".main"), ("swap", "outerHTML")];
    let mut bindings = bound("x", spread(&imp, None, &values));
    bindings
        .set(
            r#"HxGet { get: "/a", target: ".main", swap: "outerHTML", }"#,
            spread(&imp, None, &values),
        )
        .unwrap();

    assert_eq!(
        html(r#"a@(x) { "A" }"#, &bindings),
        "<a hx-get=\"/a\" hx-target=\".main\" hx-swap=\"outerHTML\">A</a>"
    );

    assert_eq!(
        html(
            r#"
        b@(
            HxGet {
                get: "/a",
                target: ".main",
                swap: "outerHTML",
            }
        ) {
            "A"
        }
    "#,
            &bindings
        ),
        "<b hx-get=\"/a\" hx-target=\".main\" hx-swap=\"outerHTML\">A</b>"
    );

    assert_eq!(
        html(r#"c@(x) { "A" }"#, &bindings),
        "<c hx-get=\"/a\" hx-target=\".main\" hx-swap=\"outerHTML\">A</c>"
    );
}

#[test]
fn multiple_structs_on_valid_tag() {
    let foo = derive(
        vec![tags("only(a)")],
        "Foo",
        Data::Struct(fields(&["target"])),
    );

    let bar = derive(
        vec![tags("only(a)")],
        "Bar",
        Data::Struct(fields(&["get"])),
    );

    let mut bindings = Bindings::new();
    bindings.set("x", spread(&bar, None, &[("get", "/")])).unwrap();
    bindings
        .set(
            r#"Foo { target: ".main" }"#,
            spread(&foo, None, &[("target", ".main")]),
        )
        .unwrap();

    assert_eq!(
        html(
            r#"
        a @(Foo { target: ".main" }) @(x) {
            "A"
        }
    "#,
            &bindings
        ),
        "<a target=\".main\" get=\"/\">A</a>"
    );
}

#[test]
fn struct_option_type_with_toggle_syntax() {
    let foo = derive(
        vec![tags("include(a)")],
        "Foo",
        Data::Struct(fields(&["target"])),
    );

    let x = Some(spread(&foo, None, &[("target", ".main")]));

    assert_eq!(
        html(
            r#"
        a @[x] {
            "A"
        }
    "#,
            &bound("x", x.unwrap_or(Value::Absent))
        ),
        "<a target=\".main\">A</a>"
    );

    let x: Option<Value> = None;

    assert_eq!(
        html(
            r#"
        a @[x] {
            "A"
        }
    "#,
            &bound("x", x.unwrap_or(Value::Absent))
        ),
        "<a>A</a>"
    );
}
