use bricke::attributes::{parse_meta_path, BrickeAttributes, ConverterType, ParseNestedMeta};
use bricke::fields::BrickeFieldArgs;
use bricke::token::{Delimiter, ParseError, Token};
use proc_macro2::{Spacing, TokenStream, TokenTree};

fn push_tokens(stream: TokenStream, out: &mut Vec<Token>) {
    for tree in stream {
        match tree {
            TokenTree::Ident(i) => out.push(Token::Ident(i.to_string())),
            TokenTree::Punct(p) => out.push(Token::Punct(p.as_char(), p.spacing() == Spacing::Joint)),
            TokenTree::Literal(l) => out.push(Token::Literal(l.to_string())),
            TokenTree::Group(g) => match g.delimiter() {
                proc_macro2::Delimiter::None => push_tokens(g.stream(), out),
                proc_macro2::Delimiter::Parenthesis => {
                    out.push(Token::Group(Delimiter::Parenthesis, g.stream().to_string()))
                }
                proc_macro2::Delimiter::Brace => out.push(Token::Group(Delimiter::Brace, g.stream().to_string())),
                proc_macro2::Delimiter::Bracket => {
                    out.push(Token::Group(Delimiter::Bracket, g.stream().to_string()))
                }
            },
        }
    }
}

fn tokens(src: &str) -> Vec<Token> {
    let stream: TokenStream = src.parse().unwrap();
    let mut out = Vec::new();
    push_tokens(stream, &mut out);
    out
}

fn args(src: &str) -> Result<BrickeAttributes, ParseError> {
    BrickeAttributes::parse_args(&tokens(src))
}

fn field_args(src: &str) -> Result<Vec<BrickeFieldArgs>, ParseError> {
    BrickeFieldArgs::parse_terminated(&tokens(src))
}

#[test]
fn empty_arguments_give_the_default() {
    let a = args("").unwrap();
    assert_eq!(a.converter, ConverterType::From);
    assert!(a.source.is_none());
    assert!(a.error_kind.is_none());
    assert!(a.lifetimes.is_none());
    assert_eq!(ConverterType::default(), ConverterType::From);
}

#[test]
fn converter_values() {
    assert_eq!(args(r#"converter = "TryFrom""#).unwrap().converter, ConverterType::TryFrom);
    assert_eq!(args(r#"converter = "From""#).unwrap().converter, ConverterType::From);
    assert_eq!(args(r#"converter = "tryfrom""#).unwrap().converter, ConverterType::From);
    assert_eq!(args(r#"converter = "TryFrom", converter = "From""#).unwrap().converter, ConverterType::From);
}

#[test]
fn converter_stays_from_without_its_key() {
    let a = args(r#"source = "S", lifetimes = 'converter"#).unwrap();
    assert_eq!(a.converter, ConverterType::From);
    let l = a.lifetimes.unwrap();
    assert_eq!(l.names, vec!["converter".to_string()]);
    assert!(!l.trailing_comma);
}

#[test]
fn all_keys_and_trailing_comma() {
    let a = args(r#"source = "Src", try_error_type = "E", converter = "TryFrom", lifetimes = 'a, 'b,"#).unwrap();
    assert_eq!(a.source.unwrap(), "Src");
    assert_eq!(a.error_kind.unwrap(), "E");
    assert_eq!(a.converter, ConverterType::TryFrom);
    let l = a.lifetimes.unwrap();
    assert_eq!(l.names, vec!["a".to_string(), "b".to_string()]);
    assert!(l.trailing_comma);
    assert_eq!(args(r#"source = "S","#).unwrap().source.unwrap(), "S");
    let empty = args("lifetimes =").unwrap().lifetimes.unwrap();
    assert_eq!(empty.names, Vec::<String>::new());
    assert!(!empty.trailing_comma);
    let one = args("lifetimes = 'a").unwrap().lifetimes.unwrap();
    assert_eq!(one.names, vec!["a".to_string()]);
    assert!(!one.trailing_comma);
    assert!(args("lifetimes = 'a,").unwrap().lifetimes.unwrap().trailing_comma);
    assert!(matches!(args("lifetimes = ,"), Err(ParseError::ExpectedLifetime)));
}

#[test]
fn source_without_string_is_left_out() {
    let a = args(r#"source = "A", source = X"#);
    assert!(matches!(a, Err(ParseError::ExpectedComma)));
    let b = args("source =").unwrap();
    assert!(b.source.is_none());
}

#[test]
fn argument_errors() {
    assert!(matches!(args(r#"a::b = "x""#), Err(ParseError::UnknownAttribute)));
    assert!(matches!(args(r#"::source = "x""#), Err(ParseError::UnknownAttribute)));
    match args(r#"target = "x""#) {
        Err(ParseError::UnknownNamedAttribute(name)) => assert_eq!(name, "target"),
        _ => panic!("an unknown key is refused"),
    }
    assert!(matches!(args(r#"converter "x""#), Err(ParseError::ExpectedEq)));
    assert!(matches!(args("converter = 5"), Err(ParseError::ExpectedStringLiteral)));
    assert!(matches!(args(r#"converter = "A" source = "B""#), Err(ParseError::ExpectedComma)));
    assert!(matches!(args(r#""x""#), Err(ParseError::UnexpectedLiteral)));
    assert!(matches!(args("-1"), Err(ParseError::UnexpectedLiteral)));
    assert!(matches!(args("(a)"), Err(ParseError::UnexpectedToken)));
    assert!(matches!(args("a::"), Err(ParseError::ExpectedIdent)));
    assert!(matches!(args(r#"lifetimes = 'a, source = "S""#), Err(ParseError::ExpectedLifetime)));
    assert!(matches!(args("lifetimes = 'a 'b"), Err(ParseError::ExpectedComma)));
    assert!(matches!(args("source = \"S\", ,"), Err(ParseError::UnexpectedToken)));
}

#[test]
fn one_nested_attribute() {
    let toks = tokens(r#"source = "S", rest"#);
    let (path, pos) = parse_meta_path(&toks, 0).unwrap();
    assert_eq!(pos, 1);
    let mut attrs = BrickeAttributes::default();
    let meta = ParseNestedMeta { path, input: &toks, pos };
    assert_eq!(attrs.parse(&meta).unwrap(), 3);
    assert_eq!(attrs.source.unwrap(), "S");
    let toks = tokens("a :: b :: c = 1");
    let (path, pos) = parse_meta_path(&toks, 0).unwrap();
    assert_eq!(path.segments, vec!["a".to_string(), "b".to_string(), "c".to_string()]);
    assert_eq!(pos, 7);
    let mut untouched = BrickeAttributes::default();
    let meta = ParseNestedMeta { path, input: &toks, pos };
    assert!(matches!(untouched.parse(&meta), Err(ParseError::UnknownAttribute)));
    assert!(untouched.source.is_none());
}

#[test]
fn field_argument_values() {
    let a = field_args(r#"transform_fn = "f", rename = "r", ignore, is_fallible = false, default_value = "d","#).unwrap();
    assert_eq!(a.len(), 5);
    assert!(matches!(&a[0], BrickeFieldArgs::ConvertFieldFn(s, t) if s == "f" && t == "\"f\""));
    assert!(matches!(&a[1], BrickeFieldArgs::Rename(s) if s == "r"));
    assert!(matches!(&a[2], BrickeFieldArgs::Ignore));
    assert!(matches!(&a[3], BrickeFieldArgs::IsFallible(false)));
    assert!(matches!(&a[4], BrickeFieldArgs::DefaultValue(s) if s == "\"d\""));
    assert_eq!(field_args("").unwrap().len(), 0);
    let (one, next) = BrickeFieldArgs::parse(&tokens("is_fallible = true, x"), 0).unwrap();
    assert!(matches!(one, BrickeFieldArgs::IsFallible(true)));
    assert_eq!(next, 3);
}

#[test]
fn exclude_takes_a_boolean() {
    let a = field_args("exclude = true, exclude = false").unwrap();
    assert!(matches!(&a[0], BrickeFieldArgs::Exclude(true)));
    assert!(matches!(&a[1], BrickeFieldArgs::Exclude(false)));
    assert!(matches!(field_args("exclude"), Err(ParseError::ExpectedEq)));
    assert!(matches!(field_args(r#"exclude = "yes""#), Err(ParseError::ExpectedBooleanLiteral)));
}

#[test]
fn source_must_be_an_identifier() {
    match args(r#"source = "my::Source", wrong"#) {
        Err(ParseError::InvalidIdent(s)) => assert_eq!(s, "my::Source"),
        _ => panic!("a source that is no identifier is refused where it is read"),
    }
}

#[test]
fn field_argument_errors() {
    match field_args("skip = true") {
        Err(ParseError::UnsupportedFieldAttribute(name)) => assert_eq!(name, "skip"),
        _ => panic!("an unknown key is refused"),
    }
    match field_args(r#"type = "x""#) {
        Err(ParseError::FoundKeyword(word)) => assert_eq!(word, "type"),
        _ => panic!("a keyword is refused"),
    }
    assert!(matches!(field_args(r#""x""#), Err(ParseError::ExpectedIdentifier)));
    assert!(matches!(field_args(r#"rename "x""#), Err(ParseError::ExpectedEq)));
    assert!(matches!(field_args("rename = x"), Err(ParseError::ExpectedStringLiteral)));
    assert!(matches!(field_args("is_fallible = 1"), Err(ParseError::ExpectedBooleanLiteral)));
    assert!(matches!(field_args("ignore = true"), Err(ParseError::ExpectedComma)));
    assert!(matches!(field_args("ignore ignore"), Err(ParseError::ExpectedComma)));
}

#[test]
fn groups_are_tokens() {
    let t = tokens("[a] {b}");
    assert!(matches!(&t[0], Token::Group(Delimiter::Bracket, s) if s == "a"));
    assert!(matches!(&t[1], Token::Group(Delimiter::Brace, s) if s == "b"));
}
