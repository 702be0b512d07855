//! The arm of one enum variant in the generated `match arg { .. }`.
use vstd::prelude::*;
use crate::fields::{field_plan, plan_of, renames_valid, BrickeFieldArgs, FieldArgView};
use crate::item::enum_item::{EnumInnerFields, InnerFieldsView};
use crate::text::{join, push_joined};

verus! {

/// An optional name, or nothing.
pub open spec fn name_or_empty(name: Option<Seq<char>>) -> Seq<char> {
    match name {
        Some(n) => n,
        None => Seq::empty(),
    }
}

/// Names in parentheses, separated by `, `.
pub open spec fn paren_list(names: Seq<Seq<char>>) -> Seq<char> {
    "("@ + join(names, ", "@) + ")"@
}

/// Names in braces, separated by `, `.
pub open spec fn brace_list(names: Seq<Seq<char>>) -> Seq<char> {
    "{ "@ + join(names, ", "@) + " }"@
}

/// The arm of the variant `name` that goes through the function `f`; the
/// source variant is `rename` of the type `source`:
/// - unnamed fields: `Source::Rename (arg_0, ..) => Self::Name(f((arg_0, ..)))`;
/// - named fields: `Source::Rename { a, .. } => f(a, ..)`;
/// - a unit variant: `Source::Rename => f(Source::Rename)`.
pub open spec fn spec_enum_fn(
    source: Option<Seq<char>>,
    name: Seq<char>,
    rename: Option<Seq<char>>,
    f: Seq<char>,
    inner: InnerFieldsView,
) -> Seq<char> {
    let variant = name_or_empty(source) + "::"@ + name_or_empty(rename);
    match inner {
        InnerFieldsView::Unnamed(names) => variant + " "@ + paren_list(names) + " => Self::"@ + name + "("@ + f
            + "\n("@ + paren_list(names) + "))"@,
        InnerFieldsView::Named(names) => variant + " "@ + brace_list(names) + " => "@ + f + "\n("@ + join(
            names,
            ", "@,
        ) + ")"@,
        InnerFieldsView::Unit => variant + " => "@ + f + "\n("@ + variant + ")"@,
    }
}

/// The arm of the variant `name` of the target enum, given its arguments:
/// nothing with `ignore`; with a `transform_fn` whose text is a path, the
/// arm of `spec_enum_fn`; otherwise the variant of the source (the last
/// `rename`, or `name`) maps field for field to `Self::name`.
pub open spec fn spec_enum_template(
    name: Seq<char>,
    source: Option<Seq<char>>,
    args: Seq<FieldArgView>,
    inner: InnerFieldsView,
) -> Seq<char> {
    let p = field_plan(args);
    let rename = match p.rename {
        Some(r) => r,
        None => name,
    };
    let variant = name_or_empty(source) + "::"@ + rename;
    if p.skip {
        Seq::empty()
    } else {
        match p.transform {
            Some(f) => spec_enum_fn(source, name, Some(rename), f, inner),
            None => match inner {
                InnerFieldsView::Unnamed(names) => variant + " "@ + paren_list(names) + " => Self::"@ + name + " "@
                    + paren_list(names),
                InnerFieldsView::Named(names) => variant + " "@ + brace_list(names) + " => Self::"@ + name + " "@
                    + brace_list(names),
                InnerFieldsView::Unit => variant + " => Self::"@ + name,
            },
        }
    }
}

fn push_opt(out: &mut String, s: Option<&str>)
    ensures
        final(out)@ == old(out)@ + name_or_empty(match s { Some(x) => Some(x@), None => None }),
{
    match s {
        Some(x) => out.append(x),
        None => {
            assert(final(out)@ =~= old(out)@ + Seq::<char>::empty());
        },
    }
}

fn push_list(out: &mut String, names: &Vec<String>, open: &str, close: &str)
    ensures
        final(out)@ == old(out)@ + open@ + join(names.deep_view(), ", "@) + close@,
{
    out.append(open);
    push_joined(out, names, ", ");
    out.append(close);
}

/// The view of an optional string slice.
pub open spec fn opt_str_view(s: Option<&str>) -> Option<Seq<char>> {
    match s {
        Some(x) => Some(x@),
        None => None,
    }
}

/// Creates the arm of the variant `variant_name` when its value goes
/// through the function `fn_tmpl` (the text of a path, followed by a line
/// break so that a comment in it ends there).
pub fn generate_enum_fn(
    source: Option<&str>,
    variant_name: &str,
    rename: Option<&str>,
    fn_tmpl: &str,
    enum_inner_fields: &EnumInnerFields,
) -> (r: String)
    ensures
        r@ == spec_enum_fn(
            opt_str_view(source),
            variant_name@,
            opt_str_view(rename),
            fn_tmpl@,
            enum_inner_fields@,
        ),
{
    let mut variant = String::new();
    push_opt(&mut variant, source);
    variant.append("::");
    push_opt(&mut variant, rename);
    let mut out = String::new();
    out.append(variant.as_str());
    match enum_inner_fields {
        EnumInnerFields::Unnamed(names) => {
            out.append(" ");
            push_list(&mut out, names, "(", ")");
            out.append(" => Self::");
            out.append(variant_name);
            out.append("(");
            out.append(fn_tmpl);
            out.append("\n(");
            push_list(&mut out, names, "(", ")");
            out.append("))");
        },
        EnumInnerFields::Named(names) => {
            out.append(" ");
            push_list(&mut out, names, "{ ", " }");
            out.append(" => ");
            out.append(fn_tmpl);
            push_list(&mut out, names, "\n(", ")");
        },
        EnumInnerFields::Unit => {
            out.append(" => ");
            out.append(fn_tmpl);
            out.append("\n(");
            out.append(variant.as_str());
            out.append(")");
        },
    }
    assert(out@ =~= spec_enum_fn(
        opt_str_view(source),
        variant_name@,
        opt_str_view(rename),
        fn_tmpl@,
        enum_inner_fields@,
    ));
    out
}

impl BrickeFieldArgs {
    /// Creates the arm of the variant `name` in the `match` that the
    /// conversion builds, mapping `Source::Foo` to `Target::Foo`.
    pub fn create_enum_template(
        name: &str,
        source: Option<&str>,
        fields: &Vec<BrickeFieldArgs>,
        enum_fields: &EnumInnerFields,
    ) -> (r: String)
        requires
            renames_valid(fields.deep_view()),
        ensures
            r@ == spec_enum_template(name@, opt_str_view(source), fields.deep_view(), enum_fields@),
    {
        let plan = plan_of(fields);
        let rename: &str = match &plan.rename {
            Some(r) => r.as_str(),
            None => name,
        };
        if plan.skip {
            return String::new();
        }
        match &plan.transform {
            Some(f) => generate_enum_fn(source, name, Some(rename), f.as_str(), enum_fields),
            None => {
                let mut out = String::new();
                push_opt(&mut out, source);
                out.append("::");
                out.append(rename);
                match enum_fields {
                    EnumInnerFields::Unnamed(names) => {
                        out.append(" ");
                        push_list(&mut out, names, "(", ")");
                        out.append(" => Self::");
                        out.append(name);
                        out.append(" ");
                        push_list(&mut out, names, "(", ")");
                    },
                    EnumInnerFields::Named(names) => {
                        out.append(" ");
                        push_list(&mut out, names, "{ ", " }");
                        out.append(" => Self::");
                        out.append(name);
                        out.append(" ");
                        push_list(&mut out, names, "{ ", " }");
                    },
                    EnumInnerFields::Unit => {
                        out.append(" => Self::");
                        out.append(name);
                    },
                }
                assert(out@ =~= spec_enum_template(
                    name@,
                    opt_str_view(source),
                    fields.deep_view(),
                    enum_fields@,
                ));
                out
            },
        }
    }
}

} // verus!
