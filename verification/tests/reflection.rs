use lfml::spread::generate::{SpreadImpl, SpreadPiece};
use lfml::spread::generate_spread_impl;
use lfml::spread::input::{
    AttrStyle, Attribute, Data, DeriveInput, Field, FieldType, Fields, Meta, MetaValue, Variant,
};
use lfml::spread::instance::{FieldValue, Instance, SpreadError};
use lfml::spread::parse::ReflectionError;
use lfml::spread::syntax::{ImplTags, SpreadBlock, SpreadField, SpreadInput};
use lfml::spread::DATA_PREFIX;
use lfml::token::tokenize;
use lfml::types::attrs::{Bundle, NameOnly, Spread};

fn outer(meta: Meta) -> Attribute {
    Attribute {
        style: AttrStyle::Outer,
        meta,
    }
}

fn path(name: &str) -> Attribute {
    outer(Meta::Path {
        path: Some(name.to_string()),
    })
}

fn name_value(name: &str, value: &str) -> Attribute {
    outer(Meta::NameValue {
        path: Some(name.to_string()),
        value: MetaValue::Str(value.to_string()),
    })
}

fn list(name: &str, tokens: &str) -> Attribute {
    outer(Meta::List {
        path: Some(name.to_string()),
        tokens: tokenize(tokens).unwrap(),
    })
}

fn plain(name: &str) -> Field {
    Field {
        attrs: vec![],
        ident: name.to_string(),
        ty: FieldType {
            head: None,
            arg: None,
        },
    }
}

fn structure(attrs: Vec<Attribute>, fields: Vec<Field>) -> DeriveInput {
    DeriveInput {
        attrs,
        ident: "A".to_string(),
        generics: vec![],
        data: Data::Struct(Fields::Named(fields)),
    }
}

fn refusal(input: DeriveInput) -> ReflectionError {
    generate_spread_impl(input).unwrap_err()
}

fn names(list: &[&str]) -> Vec<String> {
    list.iter().map(|name| name.to_string()).collect()
}

#[test]
fn the_default_prefix_is_data() {
    assert_eq!(DATA_PREFIX, "data");
}

#[test]
fn annotations_that_are_not_known_are_refused() {
    assert_eq!(
        refusal(structure(vec![path("doc")], vec![])),
        ReflectionError::UnexpectedAttribute
    );
    assert_eq!(
        refusal(structure(vec![path("suffix")], vec![])),
        ReflectionError::UnexpectedAttribute
    );
    assert_eq!(
        refusal(structure(vec![list("prefix", "a")], vec![])),
        ReflectionError::UnexpectedAttribute
    );
    assert_eq!(
        refusal(structure(
            vec![Attribute {
                style: AttrStyle::Inner,
                meta: Meta::Path {
                    path: Some("prefix".to_string())
                }
            }],
            vec![]
        )),
        ReflectionError::UnexpectedAttribute
    );
    assert_eq!(
        refusal(structure(
            vec![outer(Meta::Path { path: None })],
            vec![]
        )),
        ReflectionError::UnexpectedAttribute
    );
    let mut field = plain("foo");
    field.attrs.push(path("prefix"));
    assert_eq!(
        refusal(structure(vec![], vec![field])),
        ReflectionError::UnexpectedAttribute
    );
    let mut field = plain("foo");
    field.attrs.push(list("rename", "a"));
    assert_eq!(
        refusal(structure(vec![], vec![field])),
        ReflectionError::UnexpectedAttribute
    );
}

#[test]
fn a_name_needs_a_string() {
    let other = |name: &str| {
        outer(Meta::NameValue {
            path: Some(name.to_string()),
            value: MetaValue::Other,
        })
    };
    assert_eq!(
        refusal(structure(vec![other("prefix")], vec![])),
        ReflectionError::ExpectedString
    );
    assert_eq!(
        refusal(structure(vec![other("suffix")], vec![])),
        ReflectionError::ExpectedString
    );
    let mut field = plain("foo");
    field.attrs.push(other("rename"));
    assert_eq!(
        refusal(structure(vec![], vec![field])),
        ReflectionError::ExpectedString
    );
}

#[test]
fn tag_lists_are_checked() {
    assert_eq!(
        refusal(structure(vec![list("tags", "all(a)")], vec![])),
        ReflectionError::ExpectedKeyword
    );
    assert_eq!(
        refusal(structure(vec![list("tags", "(a)")], vec![])),
        ReflectionError::ExpectedKeyword
    );
    assert_eq!(
        refusal(structure(vec![list("tags", "only(a), exclude(b)")], vec![])),
        ReflectionError::ExpectedKeyword
    );
    assert_eq!(
        refusal(structure(vec![list("tags", "only[a]")], vec![])),
        ReflectionError::ExpectedTagList
    );
    assert_eq!(
        refusal(structure(vec![list("tags", "only a")], vec![])),
        ReflectionError::ExpectedTagList
    );
    assert_eq!(
        refusal(structure(vec![list("tags", "only(a; b)")], vec![])),
        ReflectionError::ExpectedIdents
    );
    assert_eq!(
        refusal(structure(vec![list("tags", r#"only("a")"#)], vec![])),
        ReflectionError::ExpectedIdents
    );
    assert_eq!(
        refusal(structure(vec![list("tags", "only(a) exclude(b)")], vec![])),
        ReflectionError::ConflictingTags
    );
    assert_eq!(
        refusal(structure(vec![list("tags", "include(a) only(b)")], vec![])),
        ReflectionError::ConflictingTags
    );
}

#[test]
fn tag_lists_are_read() {
    let tags = |text: &str| {
        generate_spread_impl(structure(vec![list("tags", text)], vec![]))
            .unwrap()
            .tags
    };
    let standard = ImplTags::DefaultWith {
        extra: None,
        exclude: None,
    };
    assert_eq!(tags(""), standard);
    assert_eq!(tags("only"), standard);
    assert_eq!(tags("only,"), standard);
    assert_eq!(tags("only(a, b,, c)"), ImplTags::Only(names(&["a", "b", "c"])));
    assert_eq!(tags("only()"), ImplTags::Only(vec![]));
    assert_eq!(tags("only(a) only(b)"), ImplTags::Only(names(&["b"])));
    assert_eq!(
        tags("include(custom) exclude(img, link)"),
        ImplTags::DefaultWith {
            extra: Some(names(&["custom"])),
            exclude: Some(names(&["img", "link"])),
        }
    );
    assert_eq!(
        tags("exclude(img)"),
        ImplTags::DefaultWith {
            extra: None,
            exclude: Some(names(&["img"])),
        }
    );
}

#[test]
fn shapes_without_named_fields_are_refused() {
    let shaped = |data: Data| DeriveInput {
        attrs: vec![],
        ident: "A".to_string(),
        generics: vec![],
        data,
    };
    assert_eq!(
        refusal(shaped(Data::Union)),
        ReflectionError::UnsupportedShape
    );
    assert_eq!(
        refusal(shaped(Data::Struct(Fields::Unnamed))),
        ReflectionError::UnsupportedShape
    );
    assert_eq!(
        refusal(shaped(Data::Struct(Fields::Unit))),
        ReflectionError::UnsupportedShape
    );
    assert_eq!(
        refusal(shaped(Data::Enum(vec![Variant {
            attrs: vec![],
            ident: "B".to_string(),
            fields: Fields::Unit,
        }]))),
        ReflectionError::UnnamedFields
    );
    assert_eq!(
        refusal(shaped(Data::Enum(vec![Variant {
            attrs: vec![list("tags", "only(a)")],
            ident: "B".to_string(),
            fields: Fields::Named(vec![]),
        }]))),
        ReflectionError::UnexpectedAttribute
    );
}

#[test]
fn the_description_that_is_read() {
    let mut renamed = plain("bar");
    renamed.attrs.push(name_value("rename", "one"));
    renamed.attrs.push(path("escape_value"));
    renamed.attrs.push(name_value("rename", "two"));
    renamed.ty.head = Some("Option".to_string());
    let input = DeriveInput {
        attrs: vec![name_value("prefix", "x"), path("prefix"), name_value("suffix", "y")],
        ident: "A".to_string(),
        generics: names(&["T"]),
        data: Data::Struct(Fields::Named(vec![plain("foo"), renamed])),
    };
    assert_eq!(
        SpreadInput::parse(input),
        Ok(SpreadInput {
            tags: ImplTags::DefaultWith {
                extra: None,
                exclude: None
            },
            data_id: "A".to_string(),
            generics: names(&["T"]),
            fields: lfml::spread::syntax::SpreadData::Struct(SpreadBlock {
                prefix: Some("data".to_string()),
                suffix: Some("y".to_string()),
                fields: vec![
                    SpreadField {
                        rename: None,
                        name: "foo".to_string(),
                        is_option: false,
                        is_escaped: false,
                        is_name_only: false,
                    },
                    SpreadField {
                        rename: Some("two".to_string()),
                        name: "bar".to_string(),
                        is_option: true,
                        is_escaped: true,
                        is_name_only: false,
                    },
                ],
            }),
        })
    );
}

#[test]
fn the_template_that_is_generated() {
    let mut flag = plain("on");
    flag.ty.head = Some("NameOnly".to_string());
    let mut maybe = plain("maybe");
    maybe.ty.head = Some("Option".to_string());
    maybe.ty.arg = Some("NameOnly".to_string());
    let generated = generate_spread_impl(structure(
        vec![path("prefix")],
        vec![plain("foo"), flag, maybe],
    ))
    .unwrap();
    assert_eq!(generated.data_id, "A");
    assert_eq!(generated.tag_wrapper, "ATags");
    assert_eq!(
        generated.body,
        lfml::spread::generate::RawBody::Struct(vec![
            SpreadPiece::Text(" data-foo=\"".to_string()),
            SpreadPiece::Value {
                field: "foo".to_string(),
                escaped: false
            },
            SpreadPiece::Text("\"".to_string()),
            SpreadPiece::Text(" data-on".to_string()),
            SpreadPiece::Flag {
                field: "maybe".to_string(),
                name: "data-maybe".to_string()
            },
        ])
    );
}

#[test]
fn names_are_resolved_in_order_of_precedence() {
    let field = |rename: Option<&str>| SpreadField {
        rename: rename.map(str::to_string),
        name: "foo".to_string(),
        is_option: false,
        is_escaped: false,
        is_name_only: false,
    };
    let some = |text: &str| Some(text.to_string());
    assert_eq!(field(None).attribute_name(&None, &None), "foo");
    assert_eq!(field(None).attribute_name(&some("p"), &None), "p-foo");
    assert_eq!(field(None).attribute_name(&None, &some("s")), "foo-s");
    assert_eq!(field(None).attribute_name(&some("p"), &some("s")), "p-foo-s");
    assert_eq!(
        field(Some("bar")).attribute_name(&some("p"), &some("s")),
        "bar"
    );
    assert_eq!(field(Some("bar")).attribute_name(&None, &None), "bar");
}

#[test]
fn a_variant_keeps_what_it_does_not_override() {
    let variant = |attrs: Vec<Attribute>, name: &str| Variant {
        attrs,
        ident: name.to_string(),
        fields: Fields::Named(vec![plain("get")]),
    };
    let generated = generate_spread_impl(DeriveInput {
        attrs: vec![name_value("prefix", "p"), name_value("suffix", "s")],
        ident: "A".to_string(),
        generics: vec![],
        data: Data::Enum(vec![
            variant(vec![name_value("prefix", "q")], "First"),
            variant(vec![], "Second"),
            variant(vec![name_value("suffix", "t")], "Third"),
        ]),
    })
    .unwrap();
    let raw = |name: &str| {
        generated
            .raw(&Instance {
                variant: Some(name.to_string()),
                fields: vec![("get".to_string(), FieldValue::Text("/".to_string()))],
            })
            .unwrap()
    };
    assert_eq!(raw("First"), " q-get-s=\"/\"");
    assert_eq!(raw("Second"), " p-get-s=\"/\"");
    assert_eq!(raw("Third"), " p-get-t=\"/\"");
}

fn one_field(head: Option<&str>, arg: Option<&str>) -> SpreadImpl {
    let mut field = plain("foo");
    field.ty.head = head.map(str::to_string);
    field.ty.arg = arg.map(str::to_string);
    generate_spread_impl(structure(vec![], vec![field])).unwrap()
}

fn holding(value: FieldValue) -> Instance {
    Instance {
        variant: None,
        fields: vec![("foo".to_string(), value)],
    }
}

#[test]
fn a_value_that_does_not_fit_is_refused() {
    let nothing = Instance {
        variant: None,
        fields: vec![],
    };
    let required = one_field(None, None);
    assert_eq!(required.raw(&nothing), Err(SpreadError::MissingField));
    assert_eq!(
        required.raw(&holding(FieldValue::Absent)),
        Err(SpreadError::Mismatch)
    );
    assert_eq!(
        required.raw(&holding(FieldValue::Unit)),
        Err(SpreadError::Mismatch)
    );
    let optional = one_field(Some("Option"), None);
    assert_eq!(optional.raw(&nothing), Err(SpreadError::MissingField));
    assert_eq!(
        optional.raw(&holding(FieldValue::Unit)),
        Err(SpreadError::Mismatch)
    );
    let flag = one_field(Some("Option"), Some("NameOnly"));
    assert_eq!(flag.raw(&nothing), Err(SpreadError::MissingField));
    assert_eq!(
        flag.raw(&holding(FieldValue::Text("x".to_string()))),
        Ok(" foo".to_string())
    );
    let bare = one_field(Some("NameOnly"), None);
    assert_eq!(bare.raw(&nothing), Ok(" foo".to_string()));
}

#[test]
fn a_variant_that_is_not_known_is_refused() {
    let generated = generate_spread_impl(DeriveInput {
        attrs: vec![],
        ident: "A".to_string(),
        generics: vec![],
        data: Data::Enum(vec![Variant {
            attrs: vec![],
            ident: "B".to_string(),
            fields: Fields::Named(vec![]),
        }]),
    })
    .unwrap();
    let of = |variant: Option<&str>| Instance {
        variant: variant.map(str::to_string),
        fields: vec![],
    };
    assert_eq!(generated.raw(&of(Some("B"))), Ok(String::new()));
    assert_eq!(generated.raw(&of(Some("C"))), Err(SpreadError::UnknownVariant));
    assert_eq!(generated.raw(&of(None)), Err(SpreadError::UnknownVariant));
    assert_eq!(
        generated.bundle(&of(None)),
        Err(SpreadError::UnknownVariant)
    );
}

#[test]
fn the_first_field_of_a_name_counts() {
    let instance = Instance {
        variant: None,
        fields: vec![
            ("foo".to_string(), FieldValue::Text("1".to_string())),
            ("foo".to_string(), FieldValue::Text("2".to_string())),
        ],
    };
    assert_eq!(instance.get("foo"), Some(&FieldValue::Text("1".to_string())));
    assert_eq!(instance.get("bar"), None);
}

#[test]
fn standard_tags_are_allowed_by_default() {
    let standard = ImplTags::DefaultWith {
        extra: None,
        exclude: None,
    };
    assert!(standard.allows("a"));
    assert!(standard.allows("div"));
    assert!(standard.allows("video"));
    assert!(!standard.allows("custom"));
    assert!(!standard.allows(""));
    assert!(!standard.allows("A"));
}

#[test]
fn tag_lists_change_what_is_allowed() {
    let changed = ImplTags::DefaultWith {
        extra: Some(names(&["custom", "a"])),
        exclude: Some(names(&["img", "a"])),
    };
    assert!(changed.allows("custom"));
    assert!(changed.allows("a"));
    assert!(changed.allows("div"));
    assert!(!changed.allows("img"));
    assert!(!changed.allows("other"));
    let only = ImplTags::Only(names(&["x", "img"]));
    assert!(only.allows("x"));
    assert!(only.allows("img"));
    assert!(!only.allows("a"));
    assert_eq!(changed.duplicate(), changed);
    assert_eq!(only.duplicate(), only);
}

#[test]
fn accessors_are_the_kept_standard_tags_and_the_extra_ones() {
    let standard = names(&["a", "b", "img", "p"]);
    let changed = ImplTags::DefaultWith {
        extra: Some(names(&["custom", "b"])),
        exclude: Some(names(&["img"])),
    };
    assert_eq!(
        changed.accessors(&standard),
        names(&["a", "p", "custom", "b"])
    );
    let plain = ImplTags::DefaultWith {
        extra: None,
        exclude: None,
    };
    assert_eq!(plain.accessors(&standard), standard);
    let only = ImplTags::Only(names(&["x", "a"]));
    assert_eq!(only.accessors(&standard), names(&["x", "a"]));
}

#[test]
fn the_standard_tags_are_those_of_the_tag_list() {
    let standard = lfml::spread::syntax::standard_tag_names();
    assert!(standard.len() > 100);
    assert_eq!(standard[0], "a");
    assert!(standard.contains(&"div".to_string()));
    assert!(standard.contains(&"video".to_string()));
    assert!(!standard.contains(&"custom".to_string()));
    assert!(lfml::spread::syntax::is_standard_tag("a"));
    assert!(lfml::spread::syntax::is_standard_tag("table"));
    assert!(!lfml::spread::syntax::is_standard_tag("custom"));
    for name in &standard {
        assert!(lfml::spread::syntax::is_standard_tag(name));
    }
    let plain = ImplTags::DefaultWith {
        extra: None,
        exclude: None,
    };
    assert_eq!(plain.standard_accessors(), standard);
    let changed = ImplTags::DefaultWith {
        extra: Some(names(&["custom"])),
        exclude: Some(names(&["a"])),
    };
    let accessors = changed.standard_accessors();
    assert_eq!(accessors.len(), standard.len());
    assert_eq!(accessors[0], standard[1]);
    assert_eq!(accessors.last().unwrap(), "custom");
    for name in &accessors {
        assert!(changed.allows(name));
    }
}

#[test]
fn a_bundle_is_spread_by_its_serialization() {
    let bundle = Bundle {
        raw: " a=\"b\"".to_string(),
        tags: ImplTags::Only(vec![]),
    };
    assert_eq!(bundle.raw(), " a=\"b\"");
    assert_eq!((&bundle).raw(), " a=\"b\"");
    let mut bundle = bundle;
    assert_eq!(Spread::raw(&&mut bundle), " a=\"b\"");
    assert_eq!(NameOnly, NameOnly);
}

#[test]
fn a_bundle_carries_the_tags_of_its_type() {
    let generated = generate_spread_impl(structure(vec![list("tags", "only(a)")], vec![])).unwrap();
    assert_eq!(
        generated.bundle(&Instance {
            variant: None,
            fields: vec![]
        }),
        Ok(Bundle {
            raw: String::new(),
            tags: ImplTags::Only(names(&["a"]))
        })
    );
}
