//! The whole expansion of `#[bricke(..)]` on a struct or an enum: the
//! arguments are read, every field or variant is checked, and the
//! conversion is generated; or the reason why it cannot be.
use vstd::prelude::*;
use crate::attributes::{lemma_parsed_source_valid, spec_parse_args, AttributesView, BrickeAttributes, ConverterType};
use crate::fields::{find_invalid_rename, first_invalid_rename, lemma_first_invalid_rename};
use crate::item::enum_item::{spec_process_enum, variants_ready, ItemEnum, Variant};
use crate::item::struct_item::{fields_ready, spec_process_struct, ItemStruct, StructFieldView};
use crate::item::{args_of, collect_field_args, spec_collect_args, Attribute, AttributeView};
use crate::syntax::{is_type, reads_as_type, valid_ident};
use crate::token::{ParseError, ParseErrorView, Token, TokenView};

verus! {

/// Why a conversion cannot be generated.
#[derive(Clone, Debug)]
pub enum ExpandError {
    /// The arguments of `#[bricke(..)]` cannot be read.
    Arguments(ParseError),
    /// The `#[bricke_field(..)]` attributes of a field or variant cannot be
    /// read.
    FieldAttribute(ParseError),
    /// A `rename` that is not an identifier.
    InvalidIdent(String),
    /// No `source` was given.
    MissingSource,
    /// `TryFrom` was asked for without `try_error_type`.
    MissingErrorType,
    /// The `try_error_type` does not read as a type.
    InvalidErrorType,
}

/// The mathematical value of an [`ExpandError`].
pub enum ExpandErrorView {
    Arguments(ParseErrorView),
    FieldAttribute(ParseErrorView),
    InvalidIdent(Seq<char>),
    MissingSource,
    MissingErrorType,
    InvalidErrorType,
}

impl View for ExpandError {
    type V = ExpandErrorView;

    open spec fn view(&self) -> ExpandErrorView {
        match self {
            ExpandError::Arguments(e) => ExpandErrorView::Arguments(e@),
            ExpandError::FieldAttribute(e) => ExpandErrorView::FieldAttribute(e@),
            ExpandError::InvalidIdent(s) => ExpandErrorView::InvalidIdent(s@),
            ExpandError::MissingSource => ExpandErrorView::MissingSource,
            ExpandError::MissingErrorType => ExpandErrorView::MissingErrorType,
            ExpandError::InvalidErrorType => ExpandErrorView::InvalidErrorType,
        }
    }
}

/// What is wrong with the attributes of one field or variant: they cannot
/// be read, or a `rename` among them is not an identifier.
pub open spec fn attrs_problem(attrs: Seq<AttributeView>) -> Option<ExpandErrorView> {
    match spec_collect_args(attrs) {
        Err(e) => Some(ExpandErrorView::FieldAttribute(e)),
        Ok(args) => match first_invalid_rename(args) {
            Some(r) => Some(ExpandErrorView::InvalidIdent(r)),
            None => None,
        },
    }
}

/// The first problem in a list of problems, one per field or variant.
pub open spec fn first_problem(list: Seq<Option<ExpandErrorView>>) -> Option<ExpandErrorView>
    decreases list.len(),
{
    if list.len() == 0 {
        None
    } else {
        match list[0] {
            Some(e) => Some(e),
            None => first_problem(list.drop_first()),
        }
    }
}

/// What is wrong with the attributes for the conversion template: no
/// source, or `TryFrom` without a readable error type.
pub open spec fn template_problem(a: AttributesView) -> Option<ExpandErrorView> {
    if a.source is None {
        Some(ExpandErrorView::MissingSource)
    } else if a.converter == ConverterType::TryFrom && a.error_kind is None {
        Some(ExpandErrorView::MissingErrorType)
    } else if a.converter == ConverterType::TryFrom && !reads_as_type(a.error_kind.unwrap()) {
        Some(ExpandErrorView::InvalidErrorType)
    } else {
        None
    }
}

/// The common outcome: the arguments are read, then every field or variant
/// in order, then the attributes for the
/// template; the first problem is the error, and `generated` the result
/// when there is none.
pub open spec fn spec_expand(
    args: Seq<TokenView>,
    problems: Seq<Option<ExpandErrorView>>,
    generated: spec_fn(AttributesView) -> Seq<char>,
) -> Result<Seq<char>, ExpandErrorView> {
    match spec_parse_args(args) {
        Err(e) => Err(ExpandErrorView::Arguments(e)),
        Ok(a) => match first_problem(problems) {
            Some(e) => Err(e),
            None => match template_problem(a) {
                Some(e) => Err(e),
                None => Ok(generated(a)),
            },
        },
    }
}

/// The problems of the fields of a struct, in order.
pub open spec fn field_problems(fields: Seq<StructFieldView>) -> Seq<Option<ExpandErrorView>> {
    fields.map_values(|f: StructFieldView| attrs_problem(f.attrs))
}

/// The problems of the variants of an enum, in order.
pub open spec fn variant_problems(variants: Seq<Variant>) -> Seq<Option<ExpandErrorView>> {
    variants.map_values(|v: Variant| attrs_problem(v.attrs.deep_view()))
}

/// Checks the attributes of one field or variant.
fn check_attrs(attrs: &Vec<Attribute>) -> (r: Option<ExpandError>)
    ensures
        match r {
            Some(e) => attrs_problem(attrs.deep_view()) == Some(e@),
            None => attrs_problem(attrs.deep_view()) is None,
        },
{
    match collect_field_args(attrs) {
        Err(e) => Some(ExpandError::FieldAttribute(e)),
        Ok(args) => match find_invalid_rename(&args) {
            Some(r) => Some(ExpandError::InvalidIdent(r)),
            None => None,
        },
    }
}

/// Reads the arguments; gives the attributes or the error of `spec_expand`.
fn read_arguments(args: &Vec<Token>) -> (r: Result<BrickeAttributes, ExpandError>)
    ensures
        match (r, spec_parse_args(args.deep_view())) {
            (Ok(a), Ok(b)) => a@ == b && (b.source is Some ==> valid_ident(b.source.unwrap())),
            (Err(e), Err(f)) => e@ == ExpandErrorView::Arguments(f),
            _ => false,
        },
{
    proof {
        lemma_parsed_source_valid(args.deep_view());
    }
    match BrickeAttributes::parse_args(args) {
        Ok(a) => Ok(a),
        Err(e) => Err(ExpandError::Arguments(e)),
    }
}

/// Checks the attributes for the conversion template.
fn check_template(attrs: &BrickeAttributes) -> (r: Option<ExpandError>)
    ensures
        match r {
            Some(e) => template_problem(attrs@) == Some(e@),
            None => template_problem(attrs@) is None,
        },
{
    if attrs.source.is_none() {
        return Some(ExpandError::MissingSource);
    }
    if attrs.converter == ConverterType::TryFrom {
        match &attrs.error_kind {
            None => return Some(ExpandError::MissingErrorType),
            Some(kind) => {
                if !is_type(kind.as_str()) {
                    return Some(ExpandError::InvalidErrorType);
                }
            },
        }
    }
    None
}

/// Expands `#[bricke(..)]` with the arguments `args` on the struct `item`:
/// the conversion of [`ItemStruct::process`], or the first reason it cannot
/// be generated.
pub fn expand_struct(args: &Vec<Token>, item: &ItemStruct) -> (r: Result<String, ExpandError>)
    ensures
        match (r, spec_expand(
            args.deep_view(),
            field_problems(item@.fields),
            |a: AttributesView| spec_process_struct(item@, a),
        )) {
            (Ok(s), Ok(t)) => s@ == t,
            (Err(e), Err(f)) => e@ == f,
            _ => false,
        },
{
    let attrs = match read_arguments(args) {
        Ok(a) => a,
        Err(e) => return Err(e),
    };
    let ghost list = field_problems(item@.fields);
    let mut i: usize = 0;
    assert(list.skip(0) =~= list);
    while i < item.fields.len()
        invariant
            list == field_problems(item@.fields),
            spec_parse_args(args.deep_view()) == Ok::<AttributesView, ParseErrorView>(attrs@),
            attrs@.source is Some ==> valid_ident(attrs@.source.unwrap()),
            i <= item.fields.len(),
            first_problem(list) == first_problem(list.skip(i as int)),
            forall|j: int| 0 <= j < i ==> (#[trigger] list[j]) is None,
        decreases item.fields.len() - i,
    {
        assert(list.skip(i as int)[0] == list[i as int]);
        assert(list.skip(i as int).drop_first() =~= list.skip(i + 1));
        assert(list[i as int] == attrs_problem(item.fields[i as int].attrs.deep_view()));
        match check_attrs(&item.fields[i].attrs) {
            Some(e) => {
                assert(first_problem(list.skip(i as int)) == Some(e@));
                return Err(e);
            },
            None => {},
        }
        i = i + 1;
    }
    assert(list.skip(item.fields.len() as int) =~= Seq::<Option<ExpandErrorView>>::empty());
    match check_template(&attrs) {
        Some(e) => return Err(e),
        None => {},
    }
    proof {
        let fv = item@.fields;
        assert forall|k: int| 0 <= k < fv.len() implies {
            &&& spec_collect_args(#[trigger] fv[k].attrs) is Ok
            &&& crate::fields::renames_valid(args_of(fv[k].attrs))
        } by {
            assert(list[k] == attrs_problem(fv[k].attrs));
            lemma_first_invalid_rename(args_of(fv[k].attrs));
        }
        assert(fields_ready(fv));
    }
    Ok(item.process(&attrs))
}

/// Expands `#[bricke(..)]` with the arguments `args` on the enum `item`:
/// the conversion of [`ItemEnum::process`], or the first reason it cannot
/// be generated.
pub fn expand_enum(args: &Vec<Token>, item: &ItemEnum) -> (r: Result<String, ExpandError>)
    ensures
        match (r, spec_expand(
            args.deep_view(),
            variant_problems(item.variants@),
            |a: AttributesView| spec_process_enum(*item, a),
        )) {
            (Ok(s), Ok(t)) => s@ == t,
            (Err(e), Err(f)) => e@ == f,
            _ => false,
        },
{
    let attrs = match read_arguments(args) {
        Ok(a) => a,
        Err(e) => return Err(e),
    };
    let ghost list = variant_problems(item.variants@);
    let mut i: usize = 0;
    assert(list.skip(0) =~= list);
    while i < item.variants.len()
        invariant
            list == variant_problems(item.variants@),
            spec_parse_args(args.deep_view()) == Ok::<AttributesView, ParseErrorView>(attrs@),
            attrs@.source is Some ==> valid_ident(attrs@.source.unwrap()),
            i <= item.variants.len(),
            first_problem(list) == first_problem(list.skip(i as int)),
            forall|j: int| 0 <= j < i ==> (#[trigger] list[j]) is None,
        decreases item.variants.len() - i,
    {
        assert(list.skip(i as int)[0] == list[i as int]);
        assert(list.skip(i as int).drop_first() =~= list.skip(i + 1));
        assert(list[i as int] == attrs_problem(item.variants[i as int].attrs.deep_view()));
        match check_attrs(&item.variants[i].attrs) {
            Some(e) => {
                assert(first_problem(list.skip(i as int)) == Some(e@));
                return Err(e);
            },
            None => {},
        }
        i = i + 1;
    }
    assert(list.skip(item.variants.len() as int) =~= Seq::<Option<ExpandErrorView>>::empty());
    match check_template(&attrs) {
        Some(e) => return Err(e),
        None => {},
    }
    proof {
        let vs = item.variants@;
        assert forall|k: int| 0 <= k < vs.len() implies {
            &&& spec_collect_args(#[trigger] vs[k].attrs.deep_view()) is Ok
            &&& crate::fields::renames_valid(args_of(vs[k].attrs.deep_view()))
        } by {
            assert(list[k] == attrs_problem(vs[k].attrs.deep_view()));
            lemma_first_invalid_rename(args_of(vs[k].attrs.deep_view()));
        }
        assert(variants_ready(vs));
    }
    Ok(item.process(&attrs))
}

} // verus!
