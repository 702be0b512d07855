use bricke::attributes::{BrickeAttributes, ConverterType, LifetimeList, MetaPath};
use bricke::expand::{expand_enum, expand_struct, ExpandError};
use bricke::fields::enums::generate_enum_fn;
use bricke::fields::BrickeFieldArgs;
use bricke::item::enum_item::{process_enum_inner_fields, EnumInnerFields, ItemEnum, Variant, VariantFields};
use bricke::item::struct_item::{ItemStruct, StructField};
use bricke::item::{is_field_attribute, kept_attributes, AttrMeta, Attribute, SupportedType};
use bricke::syntax::is_valid_ident;
use bricke::token::{Delimiter, ParseError, Token};
use proc_macro2::{Spacing, TokenStream, TokenTree};

fn push_tokens(stream: TokenStream, out: &mut Vec<Token>) {
    for tree in stream {
        match tree {
            TokenTree::Ident(i) => out.push(Token::Ident(i.to_string())),
            TokenTree::Punct(p) => out.push(Token::Punct(p.as_char(), p.spacing() == Spacing::Joint)),
            TokenTree::Literal(l) => out.push(Token::Literal(l.to_string())),
            TokenTree::Group(g) => match g.delimiter() {
                proc_macro2::Delimiter::None => push_tokens(g.stream(), out),
                proc_macro2::Delimiter::Parenthesis => {
                    out.push(Token::Group(Delimiter::Parenthesis, g.stream().to_string()))
                }
                proc_macro2::Delimiter::Brace => out.push(Token::Group(Delimiter::Brace, g.stream().to_string())),
                proc_macro2::Delimiter::Bracket => {
                    out.push(Token::Group(Delimiter::Bracket, g.stream().to_string()))
                }
            },
        }
    }
}

fn tokens(src: &str) -> Vec<Token> {
    let stream: TokenStream = src.parse().unwrap();
    let mut out = Vec::new();
    push_tokens(stream, &mut out);
    out
}

fn path(segments: &[&str]) -> MetaPath {
    MetaPath { leading_colon: false, segments: segments.iter().map(|s| s.to_string()).collect() }
}

fn field_attribute(args: &str) -> Attribute {
    Attribute { path: path(&["bricke_field"]), meta: AttrMeta::List(tokens(args)) }
}

fn args_of(src: &str) -> Vec<BrickeFieldArgs> {
    BrickeFieldArgs::parse_terminated(&tokens(src)).unwrap()
}

fn field(name: &str, attrs: Vec<Attribute>) -> StructField {
    StructField { name: name.to_string(), attrs }
}

fn strings(v: &[&str]) -> Vec<String> {
    v.iter().map(|s| s.to_string()).collect()
}

#[test]
fn struct_from_with_transform_and_lifetimes() {
    let args = tokens(r#"converter = "From", source = "Input", lifetimes = 'a"#);
    let item = ItemStruct {
        ident: "Output".to_string(),
        lifetimes: vec![],
        fields: vec![field("data", vec![field_attribute(r#"transform_fn = "transform_data""#)])],
    };
    assert_eq!(
        expand_struct(&args, &item).unwrap(),
        "impl<'a> From<Input<'a>> for Output { fn from(arg: Input<'a>) -> Self { Self { data: transform_data\n(arg.data) } } }"
    );
}

#[test]
fn struct_target_lifetimes_and_module_path() {
    let args = tokens(r#"converter = "TryFrom", source = "Input", try_error_type = "std::io::Error", lifetimes = 'a, 'b,"#);
    let item = ItemStruct {
        ident: "OutputLifetime".to_string(),
        lifetimes: strings(&["a"]),
        fields: vec![
            field("data", vec![field_attribute(r#"transform_fn = "utils::append_hello", is_fallible = true"#)]),
            field("plain", vec![]),
        ],
    };
    assert_eq!(
        expand_struct(&args, &item).unwrap(),
        "impl<'a, 'b,> TryFrom<Input<'a, 'b,>> for OutputLifetime<'a> { type Error = std::io::Error\n; \
         fn try_from(arg: Input<'a, 'b,>) -> Result<Self, Self::Error> { Ok(Self { \
         data: utils::append_hello\n(arg.data)?, plain: arg.plain }) } }"
    );
}

#[test]
fn struct_field_entries() {
    assert_eq!(BrickeFieldArgs::create_struct_template("a", &vec![]), "a: arg.a");
    assert_eq!(BrickeFieldArgs::create_struct_template("a", &args_of(r#"rename = "b", rename = "c""#)), "a: arg.c");
    assert_eq!(
        BrickeFieldArgs::create_struct_template("a", &args_of(r#"default_value = "x""#)),
        "a: Some(\"x\".into())"
    );
    assert_eq!(
        BrickeFieldArgs::create_struct_template("a", &args_of(r#"transform_fn = "f", default_value = "x""#)),
        "a: f\n(Some(\"x\".into()))"
    );
    // A transform text that is no path is passed over.
    assert_eq!(
        BrickeFieldArgs::create_struct_template("a", &args_of(r#"transform_fn = "f(", rename = "b""#)),
        "a: arg.b"
    );
    // A later unusable transform text replaces an earlier usable one.
    assert_eq!(
        BrickeFieldArgs::create_struct_template("a", &args_of(r#"transform_fn = "f", transform_fn = "g<u8>""#)),
        "a: arg.a"
    );
}

#[test]
fn excluded_field_takes_default() {
    assert_eq!(
        BrickeFieldArgs::create_struct_template("a", &args_of(r#"exclude = true, transform_fn = "f""#)),
        "a: Default::default()"
    );
    assert_eq!(BrickeFieldArgs::create_struct_template("a", &args_of("exclude = false")), "a: arg.a");
    let named = EnumInnerFields::Named(strings(&["arg_0"]));
    assert_eq!(BrickeFieldArgs::create_enum_template("A", Some("S"), &args_of("exclude = true"), &named), "");
}

#[test]
fn suffixed_transform_is_passed_over() {
    assert_eq!(
        BrickeFieldArgs::create_struct_template("a", &args_of(r#"transform_fn = "f"x"#)),
        "a: arg.a"
    );
}

#[test]
fn example_struct_with_excluded_field() {
    let args = tokens(r#"converter = "TryFrom", source = "Source", try_error_type = "std::io::Error""#);
    let item = ItemStruct {
        ident: "Target".to_string(),
        lifetimes: vec![],
        fields: vec![
            field("name", vec![]),
            field(
                "timestamp",
                vec![field_attribute(r#"transform_fn = "convert_ts_to_datetime", rename = "ts", is_fallible = true"#)],
            ),
            field("excluded", vec![field_attribute("exclude = true")]),
            field("hello", vec![field_attribute(r#"transform_fn = "utils::append_hello""#)]),
        ],
    };
    assert_eq!(
        expand_struct(&args, &item).unwrap(),
        "impl TryFrom<Source> for Target { type Error = std::io::Error\n; fn try_from(arg: Source) -> \
         Result<Self, Self::Error> { Ok(Self { name: arg.name, timestamp: convert_ts_to_datetime\n(arg.ts)?, \
         excluded: Default::default(), hello: utils::append_hello\n(arg.hello) }) } }"
    );
}

#[test]
fn comment_in_a_path_ends_at_the_line_break() {
    assert_eq!(
        BrickeFieldArgs::create_struct_template("a", &args_of(r#"transform_fn = "f // the function""#)),
        "a: f // the function\n(arg.a)"
    );
}

#[test]
fn ignored_field_takes_default() {
    assert_eq!(
        BrickeFieldArgs::create_struct_template("a", &args_of(r#"transform_fn = "f", ignore, rename = "b""#)),
        "a: Default::default()"
    );
}

#[test]
fn fallible_without_transform_changes_nothing() {
    assert_eq!(BrickeFieldArgs::create_struct_template("a", &args_of("is_fallible = true")), "a: arg.a");
    assert_eq!(
        BrickeFieldArgs::create_struct_template("a", &args_of(r#"transform_fn = "f", is_fallible = true, is_fallible = false"#)),
        "a: f\n(arg.a)"
    );
}

#[test]
fn other_attributes_are_not_read() {
    let doc = Attribute { path: path(&["doc"]), meta: AttrMeta::NameValue };
    let args = tokens(r#"source = "Input""#);
    let with_doc = ItemStruct {
        ident: "T".to_string(),
        lifetimes: vec![],
        fields: vec![field("a", vec![doc.clone(), field_attribute(r#"rename = "b""#), doc])],
    };
    let without = ItemStruct {
        ident: "T".to_string(),
        lifetimes: vec![],
        fields: vec![field("a", vec![field_attribute(r#"rename = "b""#)])],
    };
    let expected = "impl From<Input> for T { fn from(arg: Input) -> Self { Self { a: arg.b } } }";
    assert_eq!(expand_struct(&args, &with_doc).unwrap(), expected);
    assert_eq!(expand_struct(&args, &without).unwrap(), expected);
}

#[test]
fn several_field_attributes_are_read_in_order() {
    let args = tokens(r#"source = "Input""#);
    let item = ItemStruct {
        ident: "T".to_string(),
        lifetimes: vec![],
        fields: vec![field("a", vec![field_attribute(r#"rename = "b""#), field_attribute(r#"rename = "c""#)])],
    };
    assert_eq!(
        expand_struct(&args, &item).unwrap(),
        "impl From<Input> for T { fn from(arg: Input) -> Self { Self { a: arg.c } } }"
    );
}

#[test]
fn split_field_attribute_reads_the_same() {
    let args = tokens(r#"source = "Input""#);
    let joined = ItemStruct {
        ident: "T".to_string(),
        lifetimes: vec![],
        fields: vec![field("a", vec![field_attribute(r#"transform_fn = "f", is_fallible = true, rename = "b""#)])],
    };
    let split = ItemStruct {
        ident: "T".to_string(),
        lifetimes: vec![],
        fields: vec![field(
            "a",
            vec![field_attribute(r#"transform_fn = "f""#), field_attribute(r#"is_fallible = true, rename = "b""#)],
        )],
    };
    let expected = "impl From<Input> for T { fn from(arg: Input) -> Self { Self { a: f\n(arg.b)? } } }";
    assert_eq!(expand_struct(&args, &joined).unwrap(), expected);
    assert_eq!(expand_struct(&args, &split).unwrap(), expected);
}

#[test]
fn error_type_only_matters_for_try_from() {
    let item = ItemStruct { ident: "T".to_string(), lifetimes: vec![], fields: vec![] };
    let expected = "impl From<S> for T { fn from(arg: S) -> Self { Self {  } } }";
    assert_eq!(expand_struct(&tokens(r#"source = "S""#), &item).unwrap(), expected);
    assert_eq!(expand_struct(&tokens(r#"source = "S", try_error_type = "E""#), &item).unwrap(), expected);
}

#[test]
fn generate_conversion_template_for_enum() {
    let attrs = BrickeAttributes {
        converter: ConverterType::From,
        source: Some("S".to_string()),
        error_kind: None,
        lifetimes: Some(LifetimeList { names: vec![], trailing_comma: false }),
    };
    assert_eq!(
        attrs.generate_conversion_template("T", &strings(&["S::A => Self::A", "S::B => Self::B"]), SupportedType::Enum, &vec![]),
        "impl<> From<S<>> for T { fn from(arg: S<>) -> Self { match arg { S::A => Self::A, S::B => Self::B } } }"
    );
}

#[test]
fn inner_fields_of_variants() {
    match process_enum_inner_fields(&VariantFields::Unnamed(12)) {
        EnumInnerFields::Unnamed(names) => {
            assert_eq!(names.len(), 12);
            assert_eq!(names[0], "arg_0");
            assert_eq!(names[9], "arg_9");
            assert_eq!(names[10], "arg_10");
            assert_eq!(names[11], "arg_11");
        }
        _ => panic!("unnamed fields give unnamed names"),
    }
    match process_enum_inner_fields(&VariantFields::Named(strings(&["x", "y"]))) {
        EnumInnerFields::Named(names) => assert_eq!(names, strings(&["arg_0", "arg_1"])),
        _ => panic!("named fields give their names"),
    }
    assert!(matches!(process_enum_inner_fields(&VariantFields::Unit), EnumInnerFields::Unit));
}

#[test]
fn enum_arms() {
    let unnamed = EnumInnerFields::Unnamed(strings(&["arg_0", "arg_1"]));
    let named = EnumInnerFields::Named(strings(&["arg_0", "arg_1"]));
    assert_eq!(
        BrickeFieldArgs::create_enum_template("A", Some("S"), &vec![], &unnamed),
        "S::A (arg_0, arg_1) => Self::A (arg_0, arg_1)"
    );
    assert_eq!(
        BrickeFieldArgs::create_enum_template("A", Some("S"), &args_of(r#"rename = "B""#), &named),
        "S::B { arg_0, arg_1 } => Self::A { arg_0, arg_1 }"
    );
    assert_eq!(
        BrickeFieldArgs::create_enum_template("A", Some("S"), &vec![], &EnumInnerFields::Unit),
        "S::A => Self::A"
    );
    assert_eq!(BrickeFieldArgs::create_enum_template("A", Some("S"), &args_of("ignore"), &unnamed), "");
    assert_eq!(
        BrickeFieldArgs::create_enum_template("A", Some("S"), &args_of(r#"transform_fn = "f""#), &unnamed),
        "S::A (arg_0, arg_1) => Self::A(f\n((arg_0, arg_1)))"
    );
    assert_eq!(
        BrickeFieldArgs::create_enum_template("A", None, &args_of(r#"transform_fn = "m::f""#), &named),
        "::A { arg_0, arg_1 } => m::f\n(arg_0, arg_1)"
    );
}

#[test]
fn enum_arms_through_a_function() {
    assert_eq!(generate_enum_fn(Some("S"), "A", Some("B"), "f", &EnumInnerFields::Unit), "S::B => f\n(S::B)");
    assert_eq!(generate_enum_fn(None, "A", None, "f", &EnumInnerFields::Unit), ":: => f\n(::)");
}

#[test]
fn named_variant_fields_bind_arg_names() {
    let args = tokens(r#"source = "Source""#);
    let item = ItemEnum {
        ident: "Target".to_string(),
        lifetimes: vec![],
        variants: vec![Variant {
            ident: "A".to_string(),
            fields: VariantFields::Named(strings(&["a", "r#type"])),
            attrs: vec![],
        }],
    };
    assert_eq!(
        expand_enum(&args, &item).unwrap(),
        "impl From<Source> for Target { fn from(arg: Source) -> Self { match arg { \
         Source::A { arg_0, arg_1 } => Self::A { arg_0, arg_1 } } } }"
    );
}

#[test]
fn enum_expansion() {
    let args = tokens(r#"source = "Source""#);
    let item = ItemEnum {
        ident: "Target".to_string(),
        lifetimes: vec![],
        variants: vec![
            Variant { ident: "A".to_string(), fields: VariantFields::Unit, attrs: vec![] },
            Variant {
                ident: "B".to_string(),
                fields: VariantFields::Unnamed(1),
                attrs: vec![field_attribute(r#"rename = "Bee""#)],
            },
        ],
    };
    assert_eq!(
        expand_enum(&args, &item).unwrap(),
        "impl From<Source> for Target { fn from(arg: Source) -> Self { match arg { Source::A => Self::A, \
         Source::Bee (arg_0) => Self::B (arg_0) } } }"
    );
}

#[test]
fn expansion_errors() {
    let item = ItemStruct { ident: "T".to_string(), lifetimes: vec![], fields: vec![field("a", vec![])] };
    assert!(matches!(expand_struct(&tokens(""), &item), Err(ExpandError::MissingSource)));
    assert!(matches!(
        expand_struct(&tokens(r#"converter = "TryFrom", source = "S""#), &item),
        Err(ExpandError::MissingErrorType)
    ));
    assert!(matches!(
        expand_struct(&tokens(r#"converter = "TryFrom", source = "S", try_error_type = "not a type""#), &item),
        Err(ExpandError::InvalidErrorType)
    ));
    match expand_struct(&tokens(r#"source = "no good""#), &item) {
        Err(ExpandError::Arguments(ParseError::InvalidIdent(s))) => assert_eq!(s, "no good"),
        _ => panic!("a source that is no identifier is refused"),
    }
    assert!(matches!(
        expand_struct(&tokens(r#"wrong = "S""#), &item),
        Err(ExpandError::Arguments(ParseError::UnknownNamedAttribute(_)))
    ));
    let renamed = ItemStruct {
        ident: "T".to_string(),
        lifetimes: vec![],
        fields: vec![field("a", vec![field_attribute(r#"rename = "1b""#)])],
    };
    match expand_struct(&tokens(r#"source = "S""#), &renamed) {
        Err(ExpandError::InvalidIdent(s)) => assert_eq!(s, "1b"),
        _ => panic!("a rename that is no identifier is refused"),
    }
    let bad = ItemStruct {
        ident: "T".to_string(),
        lifetimes: vec![],
        fields: vec![field("a", vec![Attribute { path: path(&["bricke_field"]), meta: AttrMeta::Path }])],
    };
    assert!(matches!(
        expand_struct(&tokens(r#"source = "S""#), &bad),
        Err(ExpandError::FieldAttribute(ParseError::ExpectedArgumentsInParentheses))
    ));
    let bad_variant = ItemEnum {
        ident: "T".to_string(),
        lifetimes: vec![],
        variants: vec![Variant {
            ident: "A".to_string(),
            fields: VariantFields::Unit,
            attrs: vec![Attribute { path: path(&["bricke_field"]), meta: AttrMeta::NameValue }],
        }],
    };
    assert!(matches!(
        expand_enum(&tokens(r#"source = "S""#), &bad_variant),
        Err(ExpandError::FieldAttribute(ParseError::ExpectedParentheses))
    ));
}

#[test]
fn order_of_different_arguments_does_not_matter() {
    let one = BrickeFieldArgs::create_struct_template("a", &args_of(r#"rename = "b", transform_fn = "f", is_fallible = true"#));
    let other = BrickeFieldArgs::create_struct_template("a", &args_of(r#"is_fallible = true, transform_fn = "f", rename = "b""#));
    assert_eq!(one, other);
    assert_eq!(one, "a: f\n(arg.b)?");
    let third = BrickeFieldArgs::create_struct_template("a", &args_of(r#"transform_fn = "f", is_fallible = true, rename = "b""#));
    assert_eq!(one, third);
    let unnamed = EnumInnerFields::Unnamed(strings(&["arg_0"]));
    let arm = BrickeFieldArgs::create_enum_template("A", Some("S"), &args_of(r#"rename = "B", ignore"#), &unnamed);
    let swapped = BrickeFieldArgs::create_enum_template("A", Some("S"), &args_of(r#"ignore, rename = "B""#), &unnamed);
    assert_eq!(arm, swapped);
    assert_eq!(arm, "");
}

#[test]
fn fallible_and_default_do_not_change_a_variant() {
    let unnamed = EnumInnerFields::Unnamed(strings(&["arg_0"]));
    let plain = BrickeFieldArgs::create_enum_template("A", Some("S"), &args_of(r#"rename = "B""#), &unnamed);
    assert_eq!(plain, "S::B (arg_0) => Self::A (arg_0)");
    let more = BrickeFieldArgs::create_enum_template(
        "A",
        Some("S"),
        &args_of(r#"is_fallible = true, rename = "B", default_value = "x""#),
        &unnamed,
    );
    assert_eq!(plain, more);
}

#[test]
fn field_attributes_are_not_kept() {
    let doc = Attribute { path: path(&["doc"]), meta: AttrMeta::NameValue };
    let attrs = vec![doc.clone(), field_attribute("ignore"), doc];
    assert_eq!(kept_attributes(&attrs), vec![true, false, true]);
}

#[test]
fn field_attribute_paths() {
    assert!(is_field_attribute(&path(&["bricke_field"])));
    assert!(!is_field_attribute(&path(&["bricke"])));
    assert!(!is_field_attribute(&path(&["a", "bricke_field"])));
    assert!(!is_field_attribute(&MetaPath { leading_colon: true, segments: strings(&["bricke_field"]) }));
}

#[test]
fn string_literals_are_read_by_value() {
    let a = BrickeAttributes::parse_args(&tokens(r#"converter = "Try\x46rom", source = r"Src", try_error_type = "a\u{3a}\u{3a}E""#)).unwrap();
    assert_eq!(a.converter, ConverterType::TryFrom);
    assert_eq!(a.source.unwrap(), "Src");
    assert_eq!(a.error_kind.unwrap(), "a::E");
    assert_eq!(
        BrickeFieldArgs::create_struct_template("x", &args_of("rename = r#\"y\"#")),
        "x: arg.y"
    );
}

#[test]
fn paths_and_types_are_printed_as_tokens() {
    assert_eq!(
        BrickeFieldArgs::create_struct_template("x", &args_of(r#"transform_fn = "a::b""#)),
        "x: a::b\n(arg.x)"
    );
    assert_eq!(
        BrickeFieldArgs::create_struct_template("x", &args_of(r#"transform_fn = "::a""#)),
        "x: ::a\n(arg.x)"
    );
    assert_eq!(
        BrickeFieldArgs::create_struct_template("x", &args_of(r#"transform_fn = "a::<u8>""#)),
        "x: arg.x"
    );
    let item = ItemStruct { ident: "T".to_string(), lifetimes: vec![], fields: vec![] };
    assert_eq!(
        expand_struct(&tokens(r#"converter = "TryFrom", source = "S", try_error_type = "Vec<u8>""#), &item).unwrap(),
        "impl TryFrom<S> for T { type Error = Vec<u8>\n; fn try_from(arg: S) -> Result<Self, Self::Error> { Ok(Self {  }) } }"
    );
}

#[test]
fn identifiers() {
    assert!(is_valid_ident("snake_case"));
    assert!(is_valid_ident("_"));
    assert!(is_valid_ident("été"));
    assert!(!is_valid_ident(""));
    assert!(!is_valid_ident("1a"));
    assert!(!is_valid_ident("a-b"));
    assert!(!is_valid_ident("r#a"));
}
