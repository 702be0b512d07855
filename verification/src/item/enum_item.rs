//! Enums: the shape of a variant's fields, the names bound to them, and the
//! conversion of a whole enum.
use vstd::prelude::*;
use crate::attributes::{spec_conversion_template, template_ready, AttributesView, BrickeAttributes};
use crate::fields::enums::{opt_str_view, spec_enum_template};
use crate::fields::{renames_valid, BrickeFieldArgs};
use crate::item::{args_of, collect_field_args, spec_collect_args, Attribute, SupportedType};

verus! {

/// The fields of an enum variant as written: `(A, B)` with their count,
/// `{ a: A, b: B }` with their names, or none.
#[derive(Clone, Debug)]
pub enum VariantFields {
    Unnamed(usize),
    Named(Vec<String>),
    Unit,
}

/// The names that a match arm binds to the fields of a variant.
#[derive(Clone, Debug)]
pub enum EnumInnerFields {
    Unnamed(Vec<String>),
    Named(Vec<String>),
    Unit,
}

/// The mathematical value of [`EnumInnerFields`].
pub enum InnerFieldsView {
    Unnamed(Seq<Seq<char>>),
    Named(Seq<Seq<char>>),
    Unit,
}

impl View for EnumInnerFields {
    type V = InnerFieldsView;

    open spec fn view(&self) -> InnerFieldsView {
        match self {
            EnumInnerFields::Unnamed(v) => InnerFieldsView::Unnamed(v.deep_view()),
            EnumInnerFields::Named(v) => InnerFieldsView::Named(v.deep_view()),
            EnumInnerFields::Unit => InnerFieldsView::Unit,
        }
    }
}

/// The decimal digit `d` as a character.
pub open spec fn digit_char(d: nat) -> char {
    if d == 0 { '0' }
    else if d == 1 { '1' }
    else if d == 2 { '2' }
    else if d == 3 { '3' }
    else if d == 4 { '4' }
    else if d == 5 { '5' }
    else if d == 6 { '6' }
    else if d == 7 { '7' }
    else if d == 8 { '8' }
    else { '9' }
}

/// `n` written in decimal, without leading zeros.
pub open spec fn decimal(n: nat) -> Seq<char>
    decreases n,
{
    if n < 10 {
        seq![digit_char(n)]
    } else {
        decimal(n / 10).push(digit_char(n % 10))
    }
}

/// The name bound to the unnamed field at `index`: `arg_<index>`.
pub open spec fn arg_name(index: nat) -> Seq<char> {
    "arg_"@ + decimal(index)
}

/// The names bound to `count` unnamed fields: `arg_0`, `arg_1`, ...
pub open spec fn arg_names(count: nat) -> Seq<Seq<char>> {
    Seq::new(count, |i: int| arg_name(i as nat))
}

/// The names bound to the fields of a variant: `arg_<i>` for the `i`-th
/// field, unnamed or named.
pub open spec fn spec_inner_fields(fields: VariantFields) -> InnerFieldsView {
    match fields {
        VariantFields::Unnamed(n) => InnerFieldsView::Unnamed(arg_names(n as nat)),
        VariantFields::Named(names) => InnerFieldsView::Named(arg_names(names@.len())),
        VariantFields::Unit => InnerFieldsView::Unit,
    }
}

/// Appends the decimal digits of `n` to `out`.
fn push_decimal(out: &mut String, n: usize)
    ensures
        final(out)@ == old(out)@ + decimal(n as nat),
    decreases n,
{
    if n >= 10 {
        push_decimal(out, n / 10);
    }
    let d = n % 10;
    if d == 0 { out.append("0"); }
    else if d == 1 { out.append("1"); }
    else if d == 2 { out.append("2"); }
    else if d == 3 { out.append("3"); }
    else if d == 4 { out.append("4"); }
    else if d == 5 { out.append("5"); }
    else if d == 6 { out.append("6"); }
    else if d == 7 { out.append("7"); }
    else if d == 8 { out.append("8"); }
    else { out.append("9"); }
    proof {
        reveal_strlit("0");
        reveal_strlit("1");
        reveal_strlit("2");
        reveal_strlit("3");
        reveal_strlit("4");
        reveal_strlit("5");
        reveal_strlit("6");
        reveal_strlit("7");
        reveal_strlit("8");
        reveal_strlit("9");
    }
    assert(final(out)@ =~= old(out)@ + decimal(n as nat));
}

/// The names `arg_0`, `arg_1`, ... of `count` fields.
fn arg_name_list(count: usize) -> (r: Vec<String>)
    ensures
        r.deep_view() == arg_names(count as nat),
{
    let mut names: Vec<String> = Vec::new();
    let mut i: usize = 0;
    while i < count
        invariant
            i <= count,
            names.deep_view() =~= arg_names(i as nat),
        decreases count - i,
    {
        let mut name = String::new();
        name.append("arg_");
        push_decimal(&mut name, i);
        let ghost before = names.deep_view();
        names.push(name);
        assert(names.deep_view() =~= before.push(arg_name(i as nat)));
        i = i + 1;
    }
    assert(names.deep_view() =~= arg_names(count as nat));
    names
}

/// Processes the fields of an enum variant into the names its arm binds.
///
/// - unnamed fields give `arg_0`, `arg_1`, ..., written `(arg_0, arg_1, ..)`;
/// - named fields give `arg_0`, `arg_1`, ... too, one per field in order,
///   written `arg_0, arg_1, ..`;
/// - a unit variant gives nothing.
pub fn process_enum_inner_fields(fields: &VariantFields) -> (r: EnumInnerFields)
    ensures
        r@ == spec_inner_fields(*fields),
{
    match fields {
        VariantFields::Unnamed(n) => EnumInnerFields::Unnamed(arg_name_list(*n)),
        VariantFields::Named(v) => EnumInnerFields::Named(arg_name_list(v.len())),
        VariantFields::Unit => EnumInnerFields::Unit,
    }
}

/// A variant of the target enum: its name, its fields and its attributes.
#[derive(Clone, Debug)]
pub struct Variant {
    pub ident: String,
    pub fields: VariantFields,
    pub attrs: Vec<Attribute>,
}

/// The target enum: its name, its lifetime parameters (names without
/// apostrophe) and its variants.
#[derive(Clone, Debug)]
pub struct ItemEnum {
    pub ident: String,
    pub lifetimes: Vec<String>,
    pub variants: Vec<Variant>,
}

/// The arm of one variant in the `match` of the conversion.
pub open spec fn variant_arm(v: Variant, source: Option<Seq<char>>) -> Seq<char> {
    spec_enum_template(v.ident@, source, args_of(v.attrs.deep_view()), spec_inner_fields(v.fields))
}

/// Every variant's attributes can be read, and every `rename` among them
/// names an identifier.
pub open spec fn variants_ready(variants: Seq<Variant>) -> bool {
    forall|i: int|
        0 <= i < variants.len() ==> {
            &&& spec_collect_args(#[trigger] variants[i].attrs.deep_view()) is Ok
            &&& renames_valid(args_of(variants[i].attrs.deep_view()))
        }
}

/// The arms of the `match`, one per variant, in order.
pub open spec fn enum_arms(variants: Seq<Variant>, source: Option<Seq<char>>) -> Seq<Seq<char>> {
    variants.map_values(|v: Variant| variant_arm(v, source))
}

/// The conversion generated for an enum.
pub open spec fn spec_process_enum(item: ItemEnum, attrs: AttributesView) -> Seq<char> {
    spec_conversion_template(
        attrs,
        item.ident@,
        enum_arms(item.variants@, attrs.source),
        SupportedType::Enum,
        item.lifetimes.deep_view(),
    )
}

impl ItemEnum {
    /// Generates the conversion to this enum: one `match` arm per variant,
    /// built from the variant's fields and `#[bricke_field(..)]` arguments,
    /// inside the `impl` block that the attributes ask for.
    pub fn process(&self, attrs: &BrickeAttributes) -> (r: String)
        requires
            variants_ready(self.variants@),
            template_ready(attrs@),
        ensures
            r@ == spec_process_enum(*self, attrs@),
    {
        let ghost vs = self.variants@;
        let source: Option<&str> = match &attrs.source {
            Some(s) => Some(s.as_str()),
            None => None,
        };
        assert(opt_str_view(source) == attrs@.source);
        let mut field_tk: Vec<String> = Vec::new();
        let mut i: usize = 0;
        while i < self.variants.len()
            invariant
                vs == self.variants@,
                variants_ready(vs),
                opt_str_view(source) == attrs@.source,
                i <= self.variants.len(),
                field_tk.deep_view() =~= enum_arms(vs, attrs@.source).take(i as int),
            decreases self.variants.len() - i,
        {
            let variant = &self.variants[i];
            assert(spec_collect_args(vs[i as int].attrs.deep_view()) is Ok);
            let parsed_enum_fields = process_enum_inner_fields(&variant.fields);
            let args = match collect_field_args(&variant.attrs) {
                Ok(a) => a,
                Err(_) => Vec::new(),
            };
            let arm = BrickeFieldArgs::create_enum_template(
                variant.ident.as_str(),
                source,
                &args,
                &parsed_enum_fields,
            );
            let ghost before = field_tk.deep_view();
            field_tk.push(arm);
            assert(field_tk.deep_view() =~= before.push(enum_arms(vs, attrs@.source)[i as int]));
            i = i + 1;
        }
        assert(field_tk.deep_view() =~= enum_arms(vs, attrs@.source));
        attrs.generate_conversion_template(self.ident.as_str(), &field_tk, SupportedType::Enum, &self.lifetimes)
    }
}

} // verus!
