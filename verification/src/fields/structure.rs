//! The entry of one struct field in the generated `Self { .. }` expression.
use vstd::prelude::*;
use crate::fields::{field_plan, plan_of, renames_valid, BrickeFieldArgs, FieldArgView};

verus! {

/// The entry of the field `name` of the target struct, given its
/// arguments:
/// - with `ignore`: `name: Default::default()`;
/// - otherwise the value read is `Some(<literal>.into())` with a
///   `default_value`, else `arg.<source field>`, the source field being the
///   last `rename` or `name` itself;
/// - with a `transform_fn` whose string holds a path, the value goes through
///   that function, as `f(value)`, or `f(value)?` with `is_fallible = true`;
///   the path is written as the string holds it, followed by a line break so
///   that a comment in it ends there;
/// - without one the entry is `name: value`.
pub open spec fn spec_struct_template(name: Seq<char>, args: Seq<FieldArgView>) -> Seq<char> {
    let p = field_plan(args);
    let from = match p.rename {
        Some(r) => r,
        None => name,
    };
    let arg_call = match p.default_value {
        Some(v) => "Some("@ + v + ".into())"@,
        None => "arg."@ + from,
    };
    let res_call = if p.fallible {
        "("@ + arg_call + ")?"@
    } else {
        "("@ + arg_call + ")"@
    };
    if p.skip {
        name + ": Default::default()"@
    } else {
        match p.transform {
            Some(f) => name + ": "@ + f + "\n"@ + res_call,
            None => name + ": "@ + arg_call,
        }
    }
}

impl BrickeFieldArgs {
    /// Creates the entry of the field `name` in the struct expression that
    /// the conversion builds, from the field's arguments.
    pub fn create_struct_template(name: &str, fields: &Vec<BrickeFieldArgs>) -> (r: String)
        requires
            renames_valid(fields.deep_view()),
        ensures
            r@ == spec_struct_template(name@, fields.deep_view()),
    {
        let plan = plan_of(fields);
        let mut arg_call = String::new();
        match &plan.default_value {
            Some(v) => {
                arg_call.append("Some(");
                arg_call.append(v.as_str());
                arg_call.append(".into())");
            },
            None => {
                arg_call.append("arg.");
                match &plan.rename {
                    Some(r) => arg_call.append(r.as_str()),
                    None => arg_call.append(name),
                }
            },
        }
        let mut res_call = String::new();
        res_call.append("(");
        res_call.append(arg_call.as_str());
        if plan.fallible {
            res_call.append(")?");
        } else {
            res_call.append(")");
        }
        let mut out = String::new();
        out.append(name);
        if plan.skip {
            out.append(": Default::default()");
        } else {
            match &plan.transform {
                Some(f) => {
                    out.append(": ");
                    out.append(f.as_str());
                    out.append("\n");
                    out.append(res_call.as_str());
                },
                None => {
                    out.append(": ");
                    out.append(arg_call.as_str());
                },
            }
        }
        assert(out@ =~= spec_struct_template(name@, fields.deep_view()));
        out
    }
}

} // verus!
