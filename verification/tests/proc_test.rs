use bricke::attributes::MetaPath;
use bricke::expand::expand_struct;
use bricke::item::struct_item::{ItemStruct, StructField};
use bricke::item::{AttrMeta, Attribute};
use bricke::token::{Delimiter, Token};
use proc_macro2::{Spacing, TokenStream, TokenTree};

fn push_tokens(stream: TokenStream, out: &mut Vec<Token>) {
    for tree in stream {
        match tree {
            TokenTree::Ident(i) => out.push(Token::Ident(i.to_string())),
            TokenTree::Punct(p) => out.push(Token::Punct(p.as_char(), p.spacing() == Spacing::Joint)),
            TokenTree::Literal(l) => out.push(Token::Literal(l.to_string())),
            TokenTree::Group(g) => match g.delimiter() {
                proc_macro2::Delimiter::None => push_tokens(g.stream(), out),
                proc_macro2::Delimiter::Parenthesis => {
                    out.push(Token::Group(Delimiter::Parenthesis, g.stream().to_string()))
                }
                proc_macro2::Delimiter::Brace => out.push(Token::Group(Delimiter::Brace, g.stream().to_string())),
                proc_macro2::Delimiter::Bracket => {
                    out.push(Token::Group(Delimiter::Bracket, g.stream().to_string()))
                }
            },
        }
    }
}

fn tokens(src: &str) -> Vec<Token> {
    let stream: TokenStream = src.parse().unwrap();
    let mut out = Vec::new();
    push_tokens(stream, &mut out);
    out
}

fn field_attribute(args: &str) -> Attribute {
    Attribute {
        path: MetaPath { leading_colon: false, segments: vec!["bricke_field".to_string()] },
        meta: AttrMeta::List(tokens(args)),
    }
}

struct Input {
    data: Vec<u8>,
}

fn transform_data(data: Vec<u8>) -> Result<String, std::string::FromUtf8Error> {
    String::from_utf8(data)
}

struct Output {
    transformed: String,
}

// The conversion that `expand_struct` generates below, written out.
impl TryFrom<Input> for Output { type Error = std::string::FromUtf8Error
; fn try_from(arg: Input) -> Result<Self, Self::Error> { Ok(Self { transformed: transform_data
(arg.data)? }) } }

const GENERATED: &str = "impl TryFrom<Input> for Output { type Error = std::string::FromUtf8Error
; fn try_from(arg: Input) -> Result<Self, Self::Error> { Ok(Self { transformed: transform_data
(arg.data)? }) } }";

#[test]
fn expect_to_output_something() {
    let args = tokens(
        r#"converter = "TryFrom", source = "Input", try_error_type = "std::string::FromUtf8Error""#,
    );
    let item = ItemStruct {
        ident: "Output".to_string(),
        lifetimes: vec![],
        fields: vec![StructField {
            name: "transformed".to_string(),
            attrs: vec![field_attribute(r#"transform_fn = "transform_data", rename = "data", is_fallible = true"#)],
        }],
    };
    let generated = expand_struct(&args, &item).unwrap();
    assert_eq!(generated, GENERATED);

    let input = Input {
        data: b"Hello, World!".to_vec(),
    };

    let output = Output::try_from(input);
    assert!(output.is_ok());
    assert_eq!(output.unwrap().transformed, "Hello, World!");
}
