//! The items that carry a `#[bricke(..)]` attribute: structs and enums, as
//! plain values, with the attributes written on their fields or variants.
use vstd::prelude::*;
use crate::attributes::{path_ident, MetaPath, MetaPathView};
use crate::fields::{spec_field_args, BrickeFieldArgs, FieldArgView};
use crate::text::str_eq;
use crate::token::{ParseError, ParseErrorView, Token, TokenView};

pub mod enum_item;
pub mod struct_item;

verus! {

/// The name of the attribute that configures one field or variant.
pub const FIELD_NAME: &'static str = "bricke_field";

/// The kind of item that a conversion is generated for.
#[derive(Clone, Copy, Debug, PartialEq, Eq, Structural)]
pub enum SupportedType {
    Struct,
    Enum,
}

/// The form of an attribute after its path: nothing (`#[a]`), a value
/// (`#[a = ..]`), or a delimited list of tokens (`#[a(..)]`).
#[derive(Clone, Debug)]
pub enum AttrMeta {
    Path,
    NameValue,
    List(Vec<Token>),
}

/// An attribute on a field or a variant.
#[derive(Clone, Debug)]
pub struct Attribute {
    pub path: MetaPath,
    pub meta: AttrMeta,
}

/// The mathematical value of an [`AttrMeta`].
pub enum AttrMetaView {
    Path,
    NameValue,
    List(Seq<TokenView>),
}

/// The mathematical value of an [`Attribute`].
pub struct AttributeView {
    pub path: MetaPathView,
    pub meta: AttrMetaView,
}

impl View for Attribute {
    type V = AttributeView;

    open spec fn view(&self) -> AttributeView {
        AttributeView {
            path: self.path@,
            meta: match self.meta {
                AttrMeta::Path => AttrMetaView::Path,
                AttrMeta::NameValue => AttrMetaView::NameValue,
                AttrMeta::List(t) => AttrMetaView::List(t.deep_view()),
            },
        }
    }
}

impl DeepView for Attribute {
    type V = AttributeView;

    open spec fn deep_view(&self) -> AttributeView {
        self.view()
    }
}

/// Whether an attribute path is the single identifier `bricke_field`.
pub open spec fn spec_is_field_attribute(path: MetaPathView) -> bool {
    path_ident(path) == Some(FIELD_NAME@)
}

/// Whether an attribute is a `#[bricke_field(..)]`: those are read by the
/// library and removed from the item that is emitted again.
pub fn is_field_attribute(path: &MetaPath) -> (r: bool)
    ensures
        r == spec_is_field_attribute(path@),
{
    !path.leading_colon && path.segments.len() == 1 && str_eq(path.segments[0].as_str(), FIELD_NAME)
}

/// Which attributes stay on the item when it is emitted again: all but the
/// `#[bricke_field(..)]` ones, which only the conversion reads.
pub fn kept_attributes(attrs: &Vec<Attribute>) -> (r: Vec<bool>)
    ensures
        r@.len() == attrs@.len(),
        forall|i: int| 0 <= i < attrs@.len() ==> r@[i] == !spec_is_field_attribute(#[trigger] attrs@[i].path@),
{
    let mut kept: Vec<bool> = Vec::new();
    let mut i: usize = 0;
    while i < attrs.len()
        invariant
            i <= attrs.len(),
            kept@.len() == i,
            forall|j: int| 0 <= j < i ==> kept@[j] == !spec_is_field_attribute(#[trigger] attrs@[j].path@),
        decreases attrs.len() - i,
    {
        kept.push(!is_field_attribute(&attrs[i].path));
        i = i + 1;
    }
    kept
}

/// The arguments of one `#[bricke_field(..)]`: they must stand in a
/// delimited list.
pub open spec fn spec_attribute_args(meta: AttrMetaView) -> Result<Seq<FieldArgView>, ParseErrorView> {
    match meta {
        AttrMetaView::Path => Err(ParseErrorView::ExpectedArgumentsInParentheses),
        AttrMetaView::NameValue => Err(ParseErrorView::ExpectedParentheses),
        AttrMetaView::List(t) => spec_field_args(t, 0, Seq::empty()),
    }
}

/// The arguments of all `#[bricke_field(..)]` attributes among `attrs`, in
/// order; the first attribute that cannot be read gives the error.
pub open spec fn spec_collect_args(attrs: Seq<AttributeView>) -> Result<Seq<FieldArgView>, ParseErrorView>
    decreases attrs.len(),
{
    if attrs.len() == 0 {
        Ok(Seq::empty())
    } else {
        match spec_collect_args(attrs.drop_last()) {
            Err(e) => Err(e),
            Ok(before) => if spec_is_field_attribute(attrs.last().path) {
                match spec_attribute_args(attrs.last().meta) {
                    Err(e) => Err(e),
                    Ok(more) => Ok(before + more),
                }
            } else {
                Ok(before)
            },
        }
    }
}

/// Reads the arguments of all `#[bricke_field(..)]` attributes among
/// `attrs`, in order; other attributes are passed over.
pub fn collect_field_args(attrs: &Vec<Attribute>) -> (r: Result<Vec<BrickeFieldArgs>, ParseError>)
    ensures
        match (r, spec_collect_args(attrs.deep_view())) {
            (Ok(a), Ok(b)) => a.deep_view() == b,
            (Err(e), Err(f)) => e@ == f,
            _ => false,
        },
{
    let ghost t = attrs.deep_view();
    let mut out: Vec<BrickeFieldArgs> = Vec::new();
    let mut i: usize = 0;
    assert(t.take(0) =~= Seq::<AttributeView>::empty());
    assert(out.deep_view() =~= Seq::<FieldArgView>::empty());
    while i < attrs.len()
        invariant
            t == attrs.deep_view(),
            i <= attrs.len(),
            spec_collect_args(t.take(i as int)) == Ok::<Seq<FieldArgView>, ParseErrorView>(out.deep_view()),
        decreases attrs.len() - i,
    {
        assert(t.take(i + 1).drop_last() =~= t.take(i as int));
        assert(t.take(i + 1).last() == t[i as int]);
        let attr = &attrs[i];
        if is_field_attribute(&attr.path) {
            let mut more = match &attr.meta {
                AttrMeta::Path => {
                    proof {
                        lemma_collect_err_extends(t, i + 1);
                    }
                    return Err(ParseError::ExpectedArgumentsInParentheses);
                },
                AttrMeta::NameValue => {
                    proof {
                        lemma_collect_err_extends(t, i + 1);
                    }
                    return Err(ParseError::ExpectedParentheses);
                },
                AttrMeta::List(tokens) => match BrickeFieldArgs::parse_terminated(tokens) {
                    Ok(v) => v,
                    Err(e) => {
                        proof {
                            lemma_collect_err_extends(t, i + 1);
                        }
                        return Err(e);
                    },
                },
            };
            let ghost before = out.deep_view();
            let ghost added = more.deep_view();
            out.append(&mut more);
            assert(out.deep_view() =~= before + added);
        }
        i = i + 1;
    }
    assert(t.take(attrs.len() as int) =~= t);
    Ok(out)
}

/// Once the attributes up to `k` fail, the whole list fails the same way.
pub proof fn lemma_collect_err_extends(t: Seq<AttributeView>, k: int)
    requires
        0 <= k <= t.len(),
    ensures
        spec_collect_args(t.take(k)) is Err ==> spec_collect_args(t) == spec_collect_args(t.take(k)),
    decreases t.len() - k,
{
    if t.len() == k {
        assert(t.take(k) =~= t);
    } else {
        lemma_collect_err_extends(t.drop_last(), k);
        assert(t.drop_last().take(k) =~= t.take(k));
    }
}

/// The `#[bricke_field(..)]` arguments of a field or variant whose
/// attributes can be read; none for the others.
pub open spec fn args_of(attrs: Seq<AttributeView>) -> Seq<FieldArgView> {
    match spec_collect_args(attrs) {
        Ok(args) => args,
        Err(_) => Seq::empty(),
    }
}

} // verus!
