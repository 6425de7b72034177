use lfml::derive::expand_embed_as_attrs;
use lfml::derive::EmbedImpl;
use lfml::spread::input::{
    AttrStyle, Attribute, Data, DeriveInput, Field, FieldType, Fields, Meta, MetaValue,
};
use lfml::spread::instance::{FieldValue, Instance};

fn path(name: &str) -> Attribute {
    Attribute {
        style: AttrStyle::Outer,
        meta: Meta::Path {
            path: Some(name.to_string()),
        },
    }
}

fn name_value(name: &str, value: &str) -> Attribute {
    Attribute {
        style: AttrStyle::Outer,
        meta: Meta::NameValue {
            path: Some(name.to_string()),
            value: MetaValue::Str(value.to_string()),
        },
    }
}

fn field(attrs: Vec<Attribute>, name: &str, head: Option<&str>, arg: Option<&str>) -> Field {
    Field {
        attrs,
        ident: name.to_string(),
        ty: FieldType {
            head: head.map(str::to_string),
            arg: arg.map(str::to_string),
        },
    }
}

fn value(fields: Vec<(&str, FieldValue)>) -> Instance {
    Instance {
        variant: None,
        fields: fields
            .into_iter()
            .map(|(name, value)| (name.to_string(), value))
            .collect(),
    }
}

fn text(value: &str) -> FieldValue {
    FieldValue::Text(value.to_string())
}

fn foo_and_bar() -> Vec<Field> {
    vec![
        field(vec![], "foo", None, None),
        field(vec![], "bar", None, None),
    ]
}

fn foo_and_renamed_bar() -> Vec<Field> {
    vec![
        field(vec![], "foo", None, None),
        field(vec![name_value("rename", "baz")], "bar", None, None),
    ]
}

fn foo_and_escaped_bar() -> Vec<Field> {
    vec![
        field(vec![], "foo", None, None),
        field(vec![path("escape_value")], "bar", None, None),
    ]
}

fn derive(attrs: Vec<Attribute>, name: &str, generics: &[&str], fields: Vec<Field>) -> EmbedImpl {
    let input = DeriveInput {
        attrs,
        ident: name.to_string(),
        generics: generics.iter().map(|g| g.to_string()).collect(),
        data: Data::Struct(Fields::Named(fields)),
    };
    expand_embed_as_attrs(&input).unwrap()
}

fn optional<T: ToString>(value: Option<T>) -> FieldValue {
    match value {
        Some(v) => text(&v.to_string()),
        None => FieldValue::Absent,
    }
}

#[test]
fn raw_attrs_basic() {
    let a = derive(
        vec![],
        "A",
        &[],
        vec![
            field(vec![], "foo", Some("i32"), None),
            field(vec![], "bar", None, None),
        ],
    );

    let y = value(vec![("foo", text(&0.to_string())), ("bar", text("a"))]);

    assert_eq!(a.raw(&y).unwrap(), " foo=\"0\" bar=\"a\"");
}

#[test]
fn raw_attrs_escape_values() {
    let a = derive(
        vec![],
        "A",
        &["T"],
        vec![field(vec![path("escape_value")], "bar", Some("T"), None)],
    );

    let y = value(vec![("bar", text("<a></a>"))]);

    assert_eq!(a.raw(&y).unwrap(), " bar=\"&lt;a&gt;&lt;/a&gt;\"");
}

#[test]
fn raw_attrs_global_prefix() {
    let a = derive(vec![path("prefix")], "A", &[], foo_and_bar());

    let y = value(vec![("foo", text("a")), ("bar", text("a"))]);

    assert_eq!(a.raw(&y).unwrap(), " data-foo=\"a\" data-bar=\"a\"");

    let b = derive(vec![name_value("prefix", "x-data")], "B", &[], foo_and_bar());

    let y = value(vec![("foo", text("a")), ("bar", text("a"))]);

    assert_eq!(b.raw(&y).unwrap(), " x-data-foo=\"a\" x-data-bar=\"a\"");
}

#[test]
fn raw_attrs_global_suffix() {
    let a = derive(vec![name_value("suffix", "attr")], "A", &[], foo_and_bar());

    let y = value(vec![("foo", text("a")), ("bar", text("a"))]);

    assert_eq!(a.raw(&y).unwrap(), " foo-attr=\"a\" bar-attr=\"a\"");
}

#[test]
fn raw_attrs_rename_field() {
    let a = derive(vec![], "A", &[], foo_and_renamed_bar());

    let y = value(vec![("foo", text("a")), ("bar", text("a"))]);

    assert_eq!(a.raw(&y).unwrap(), " foo=\"a\" baz=\"a\"");
}

#[test]
fn raw_attrs_rename_overrides_prefix_and_suffix() {
    let a = derive(vec![path("prefix")], "A", &[], foo_and_renamed_bar());

    let y = value(vec![("foo", text("a")), ("bar", text("a"))]);

    assert_eq!(a.raw(&y).unwrap(), " data-foo=\"a\" baz=\"a\"");

    let b = derive(
        vec![name_value("suffix", "attr")],
        "B",
        &[],
        foo_and_renamed_bar(),
    );

    let y = value(vec![("foo", text("a")), ("bar", text("a"))]);

    assert_eq!(b.raw(&y).unwrap(), " foo-attr=\"a\" baz=\"a\"");
}

#[test]
fn raw_attrs_global_prefix_and_suffix() {
    let a = derive(
        vec![name_value("suffix", "attr"), path("prefix")],
        "A",
        &[],
        foo_and_bar(),
    );

    let y = value(vec![("foo", text("a")), ("bar", text("a"))]);

    assert_eq!(
        a.raw(&y).unwrap(),
        " data-foo-attr=\"a\" data-bar-attr=\"a\""
    );

    let b = derive(
        vec![name_value("suffix", "attr"), name_value("prefix", "x-data")],
        "B",
        &[],
        foo_and_bar(),
    );

    let y = value(vec![("foo", text("a")), ("bar", text("a"))]);

    assert_eq!(
        b.raw(&y).unwrap(),
        " x-data-foo-attr=\"a\" x-data-bar-attr=\"a\""
    );
}

#[test]
fn raw_attrs_blanda_uppa() {
    let a = derive(
        vec![name_value("suffix", "attr")],
        "A",
        &[],
        foo_and_escaped_bar(),
    );

    let y = value(vec![("foo", text("a")), ("bar", text("<"))]);

    assert_eq!(a.raw(&y).unwrap(), " foo-attr=\"a\" bar-attr=\"&lt;\"");

    let b = derive(vec![path("prefix")], "B", &[], foo_and_escaped_bar());

    let y = value(vec![("foo", text("a")), ("bar", text("<"))]);

    assert_eq!(b.raw(&y).unwrap(), " data-foo=\"a\" data-bar=\"&lt;\"");

    let c = derive(
        vec![path("prefix"), name_value("suffix", "attr")],
        "C",
        &[],
        foo_and_escaped_bar(),
    );

    let y = value(vec![("foo", text("a")), ("bar", text("<"))]);

    assert_eq!(
        c.raw(&y).unwrap(),
        " data-foo-attr=\"a\" data-bar-attr=\"&lt;\""
    );
}

#[test]
fn raw_attrs_display_trait_bound_is_delegated_for_generic_types() {
    let a = derive(vec![], "A", &["T"], vec![field(vec![], "foo", Some("T"), None)]);

    assert_eq!(a.generics, vec!["T".to_string()]);
}

#[test]
fn raw_attrs_option_fields_are_handled() {
    let a = derive(
        vec![],
        "A",
        &[],
        vec![
            field(vec![], "foo", Some("Option"), Some("String")),
            field(vec![], "bar", Some("Option"), Some("i32")),
        ],
    );

    let y = value(vec![
        ("foo", optional(Some("a"))),
        ("bar", optional::<i32>(None)),
    ]);

    assert_eq!(a.raw(&y).unwrap(), " foo=\"a\"");

    let y = value(vec![
        ("foo", optional::<String>(None)),
        ("bar", optional::<i32>(None)),
    ]);

    assert_eq!(a.raw(&y).unwrap(), "");

    let y = value(vec![("foo", optional(Some("a"))), ("bar", optional(Some(0)))]);

    assert_eq!(a.raw(&y).unwrap(), " foo=\"a\" bar=\"0\"");
}

#[test]
fn raw_attrs_option_fields_work_with_generics() {
    let b = derive(
        vec![],
        "B",
        &["T"],
        vec![field(vec![], "foo", Some("Option"), Some("T"))],
    );

    let y = value(vec![("foo", optional(Some("a")))]);

    assert_eq!(b.raw(&y).unwrap(), " foo=\"a\"");
}

#[test]
fn raw_attrs_option_fields_can_be_escaped() {
    let a = derive(
        vec![],
        "A",
        &[],
        vec![field(
            vec![path("escape_value")],
            "foo",
            Some("Option"),
            None,
        )],
    );

    let y = value(vec![("foo", optional(Some("<")))]);

    assert_eq!(a.raw(&y).unwrap(), " foo=\"&lt;\"");
}
