//! Structs: their fields with the attributes written on them, and the
//! conversion that builds the target struct field by field.
use vstd::prelude::*;
use crate::attributes::{spec_conversion_template, template_ready, AttributesView, BrickeAttributes};
use crate::fields::structure::spec_struct_template;
use crate::fields::{renames_valid, BrickeFieldArgs};
use crate::item::{args_of, collect_field_args, spec_collect_args, Attribute, AttributeView, SupportedType};

verus! {

/// A named field of the target struct.
#[derive(Clone, Debug)]
pub struct StructField {
    pub name: String,
    pub attrs: Vec<Attribute>,
}

/// The target struct: its name, its lifetime parameters (names without
/// apostrophe) and its named fields.
#[derive(Clone, Debug)]
pub struct ItemStruct {
    pub ident: String,
    pub lifetimes: Vec<String>,
    pub fields: Vec<StructField>,
}

/// The mathematical value of a [`StructField`].
pub struct StructFieldView {
    pub name: Seq<char>,
    pub attrs: Seq<AttributeView>,
}

impl View for StructField {
    type V = StructFieldView;

    open spec fn view(&self) -> StructFieldView {
        StructFieldView { name: self.name@, attrs: self.attrs.deep_view() }
    }
}

impl DeepView for StructField {
    type V = StructFieldView;

    open spec fn deep_view(&self) -> StructFieldView {
        self.view()
    }
}

/// The mathematical value of an [`ItemStruct`].
pub struct ItemStructView {
    pub ident: Seq<char>,
    pub lifetimes: Seq<Seq<char>>,
    pub fields: Seq<StructFieldView>,
}

impl View for ItemStruct {
    type V = ItemStructView;

    open spec fn view(&self) -> ItemStructView {
        ItemStructView {
            ident: self.ident@,
            lifetimes: self.lifetimes.deep_view(),
            fields: self.fields.deep_view(),
        }
    }
}

/// Every field's attributes can be read, and every `rename` among them
/// names an identifier.
pub open spec fn fields_ready(fields: Seq<StructFieldView>) -> bool {
    forall|i: int|
        0 <= i < fields.len() ==> {
            &&& spec_collect_args(#[trigger] fields[i].attrs) is Ok
            &&& renames_valid(args_of(fields[i].attrs))
        }
}

/// The entries of the struct expression, one per field, in order.
pub open spec fn struct_entries(fields: Seq<StructFieldView>) -> Seq<Seq<char>> {
    fields.map_values(|f: StructFieldView| spec_struct_template(f.name, args_of(f.attrs)))
}

/// The conversion generated for a struct.
pub open spec fn spec_process_struct(item: ItemStructView, attrs: AttributesView) -> Seq<char> {
    spec_conversion_template(attrs, item.ident, struct_entries(item.fields), SupportedType::Struct, item.lifetimes)
}

impl ItemStruct {
    /// Generates the conversion to this struct: one entry per field, built
    /// from the field's `#[bricke_field(..)]` arguments, inside the `impl`
    /// block that the attributes ask for.
    pub fn process(&self, attrs: &BrickeAttributes) -> (r: String)
        requires
            fields_ready(self@.fields),
            template_ready(attrs@),
        ensures
            r@ == spec_process_struct(self@, attrs@),
    {
        let ghost fv = self@.fields;
        let mut processed_fields: Vec<String> = Vec::new();
        let mut i: usize = 0;
        while i < self.fields.len()
            invariant
                fv == self@.fields,
                fields_ready(fv),
                i <= self.fields.len(),
                processed_fields.deep_view() =~= struct_entries(fv).take(i as int),
            decreases self.fields.len() - i,
        {
            let field = &self.fields[i];
            assert(fv[i as int] == field@);
            assert(spec_collect_args(fv[i as int].attrs) is Ok);
            let args = match collect_field_args(&field.attrs) {
                Ok(a) => a,
                Err(_) => Vec::new(),
            };
            let entry = BrickeFieldArgs::create_struct_template(field.name.as_str(), &args);
            let ghost before = processed_fields.deep_view();
            processed_fields.push(entry);
            assert(processed_fields.deep_view() =~= before.push(struct_entries(fv)[i as int]));
            i = i + 1;
        }
        assert(processed_fields.deep_view() =~= struct_entries(fv));
        attrs.generate_conversion_template(
            self.ident.as_str(),
            &processed_fields,
            SupportedType::Struct,
            &self.lifetimes,
        )
    }
}

} // verus!
