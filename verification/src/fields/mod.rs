//! The arguments of `#[bricke_field(..)]`, written on a field of a struct or
//! on a variant of an enum, and the entries of the conversion built from them.
use vstd::prelude::*;
use crate::syntax::{is_valid_ident, lit_str_is_mod_style_path, str_literal_is_mod_style_path, valid_ident};
use crate::text::str_eq;
use crate::token::{
    parse_ident, parse_lit_bool, parse_lit_str, is_punct, punct_at, spec_ident, spec_lit_bool,
    spec_lit_str, ParseError, ParseErrorView, Parsed, Token, TokenView,
};

pub mod enums;
pub mod structure;

verus! {

/// One argument of `#[bricke_field(..)]`:
/// - `transform_fn = "path"`: the function the value goes through: the value
///   of the string and the string literal as written;
/// - `rename = "name"`: the name of the field or variant in the source;
/// - `ignore`: the target field or variant is not read from the source;
/// - `exclude = true`: the same as `ignore`; `exclude = false` changes
///   nothing;
/// - `is_fallible = true`: the transform function returns a `Result` whose
///   error is passed on with `?`;
/// - `default_value = "text"`: the value, a string literal as written, that
///   replaces the source field.
#[derive(Clone, Debug)]
pub enum BrickeFieldArgs {
    ConvertFieldFn(String, String),
    Rename(String),
    Ignore,
    Exclude(bool),
    IsFallible(bool),
    DefaultValue(String),
}

/// The mathematical value of [`BrickeFieldArgs`].
pub enum FieldArgView {
    ConvertFieldFn(Seq<char>, Seq<char>),
    Rename(Seq<char>),
    Ignore,
    Exclude(bool),
    IsFallible(bool),
    DefaultValue(Seq<char>),
}

impl View for BrickeFieldArgs {
    type V = FieldArgView;

    open spec fn view(&self) -> FieldArgView {
        match self {
            BrickeFieldArgs::ConvertFieldFn(s, t) => FieldArgView::ConvertFieldFn(s@, t@),
            BrickeFieldArgs::Rename(s) => FieldArgView::Rename(s@),
            BrickeFieldArgs::Ignore => FieldArgView::Ignore,
            BrickeFieldArgs::Exclude(b) => FieldArgView::Exclude(*b),
            BrickeFieldArgs::IsFallible(b) => FieldArgView::IsFallible(*b),
            BrickeFieldArgs::DefaultValue(s) => FieldArgView::DefaultValue(s@),
        }
    }
}

impl DeepView for BrickeFieldArgs {
    type V = FieldArgView;

    open spec fn deep_view(&self) -> FieldArgView {
        self.view()
    }
}

/// The keys that are followed by `=` and a value.
pub open spec fn takes_value(key: Seq<char>) -> bool {
    ||| key == "transform_fn"@
    ||| key == "rename"@
    ||| key == "is_fallible"@
    ||| key == "default_value"@
    ||| key == "exclude"@
}

/// Reads one argument of `#[bricke_field(..)]` at `i`: a key that is an
/// identifier, `=` after the keys that take a value, then the value.
pub open spec fn spec_field_arg(t: Seq<TokenView>, i: int) -> Parsed<FieldArgView> {
    match spec_ident(t, i) {
        Err(e) => Err(e),
        Ok((key, j)) => if takes_value(key) && !punct_at(t, j, '=') {
            Err(ParseErrorView::ExpectedEq)
        } else {
            let v = if takes_value(key) { j + 1 } else { j };
            if key == "transform_fn"@ {
                match spec_lit_str(t, v) {
                    Err(e) => Err(e),
                    Ok((s, n)) => Ok((FieldArgView::ConvertFieldFn(s, t[v]->Literal_0), n)),
                }
            } else if key == "rename"@ {
                match spec_lit_str(t, v) {
                    Err(e) => Err(e),
                    Ok((s, n)) => Ok((FieldArgView::Rename(s), n)),
                }
            } else if key == "ignore"@ {
                Ok((FieldArgView::Ignore, v))
            } else if key == "is_fallible"@ {
                match spec_lit_bool(t, v) {
                    Err(e) => Err(e),
                    Ok((b, n)) => Ok((FieldArgView::IsFallible(b), n)),
                }
            } else if key == "default_value"@ {
                match spec_lit_str(t, v) {
                    Err(e) => Err(e),
                    Ok((_, n)) => Ok((FieldArgView::DefaultValue(t[v]->Literal_0), n)),
                }
            } else if key == "exclude"@ {
                match spec_lit_bool(t, v) {
                    Err(e) => Err(e),
                    Ok((b, n)) => Ok((FieldArgView::Exclude(b), n)),
                }
            } else {
                Err(ParseErrorView::UnsupportedFieldAttribute(key))
            }
        },
    }
}

/// Reading an argument takes at least one token.
pub proof fn lemma_field_arg_advances(t: Seq<TokenView>, i: int)
    ensures
        spec_field_arg(t, i) matches Ok((_, j)) ==> i < j <= t.len(),
{
}

/// Reads arguments separated by `,` from `i` to the end of the tokens; a
/// trailing `,` is allowed.
pub open spec fn spec_field_args(t: Seq<TokenView>, i: int, acc: Seq<FieldArgView>) -> Result<Seq<FieldArgView>, ParseErrorView>
    decreases t.len() - i,
{
    if i >= t.len() {
        Ok(acc)
    } else {
        match spec_field_arg(t, i) {
            Err(e) => Err(e),
            Ok((a, j)) => if j >= t.len() {
                Ok(acc.push(a))
            } else if !punct_at(t, j, ',') {
                Err(ParseErrorView::ExpectedComma)
            } else {
                proof {
                    lemma_field_arg_advances(t, i);
                }
                spec_field_args(t, j + 1, acc.push(a))
            },
        }
    }
}

impl BrickeFieldArgs {
    /// Reads one argument at `i` and returns it with the position after it.
    pub fn parse(tokens: &Vec<Token>, i: usize) -> (r: Result<(BrickeFieldArgs, usize), ParseError>)
        requires
            i <= tokens.len(),
        ensures
            match (r, spec_field_arg(tokens.deep_view(), i as int)) {
                (Ok((a, j)), Ok((b, k))) => a@ == b && j as int == k,
                (Err(e), Err(f)) => e@ == f,
                _ => false,
            },
    {
        let ghost t = tokens.deep_view();
        let (keyword, j) = match parse_ident(tokens, i) {
            Ok(v) => v,
            Err(e) => return Err(e),
        };
        let k = keyword.as_str();
        let with_value = str_eq(k, "transform_fn") || str_eq(k, "rename") || str_eq(k, "is_fallible")
            || str_eq(k, "default_value") || str_eq(k, "exclude");
        let mut v = j;
        if with_value {
            if !is_punct(tokens, j, '=') {
                return Err(ParseError::ExpectedEq);
            }
            v = j + 1;
        }
        if str_eq(k, "transform_fn") {
            match parse_lit_str(tokens, v) {
                Ok((s, text, n)) => Ok((BrickeFieldArgs::ConvertFieldFn(s, text), n)),
                Err(e) => Err(e),
            }
        } else if str_eq(k, "rename") {
            match parse_lit_str(tokens, v) {
                Ok((s, _, n)) => Ok((BrickeFieldArgs::Rename(s), n)),
                Err(e) => Err(e),
            }
        } else if str_eq(k, "ignore") {
            Ok((BrickeFieldArgs::Ignore, v))
        } else if str_eq(k, "is_fallible") {
            match parse_lit_bool(tokens, v) {
                Ok((b, n)) => Ok((BrickeFieldArgs::IsFallible(b), n)),
                Err(e) => Err(e),
            }
        } else if str_eq(k, "default_value") {
            match parse_lit_str(tokens, v) {
                Ok((_, text, n)) => Ok((BrickeFieldArgs::DefaultValue(text), n)),
                Err(e) => Err(e),
            }
        } else if str_eq(k, "exclude") {
            match parse_lit_bool(tokens, v) {
                Ok((b, n)) => Ok((BrickeFieldArgs::Exclude(b), n)),
                Err(e) => Err(e),
            }
        } else {
            Err(ParseError::UnsupportedFieldAttribute(keyword))
        }
    }

    /// Reads all the arguments of one `#[bricke_field(..)]`: arguments
    /// separated by `,`, up to the end of the tokens.
    pub fn parse_terminated(tokens: &Vec<Token>) -> (r: Result<Vec<BrickeFieldArgs>, ParseError>)
        ensures
            match (r, spec_field_args(tokens.deep_view(), 0, Seq::empty())) {
                (Ok(a), Ok(b)) => a.deep_view() == b,
                (Err(e), Err(f)) => e@ == f,
                _ => false,
            },
    {
        let ghost t = tokens.deep_view();
        let mut args: Vec<BrickeFieldArgs> = Vec::new();
        let mut i: usize = 0;
        assert(args.deep_view() =~= Seq::<FieldArgView>::empty());
        loop
            invariant
                t == tokens.deep_view(),
                i <= tokens.len(),
                spec_field_args(t, 0, Seq::empty()) == spec_field_args(t, i as int, args.deep_view()),
            decreases tokens.len() - i,
        {
            if i >= tokens.len() {
                return Ok(args);
            }
            let (arg, j) = match BrickeFieldArgs::parse(tokens, i) {
                Ok(v) => v,
                Err(e) => return Err(e),
            };
            proof {
                lemma_field_arg_advances(t, i as int);
            }
            let ghost before = args.deep_view();
            let ghost av = arg@;
            args.push(arg);
            assert(args.deep_view() =~= before.push(av));
            if j >= tokens.len() {
                return Ok(args);
            }
            if !is_punct(tokens, j, ',') {
                return Err(ParseError::ExpectedComma);
            }
            i = j + 1;
        }
    }
}

/// What the arguments of one field or variant ask for, each later argument
/// overriding an earlier one of its kind.
pub struct FieldPlan {
    /// The name read from the source, from the last `rename`.
    pub rename: Option<Seq<char>>,
    /// The path of the last `transform_fn`, as the value of its string;
    /// nothing where that string holds no path or carries a suffix, or where
    /// there is no `transform_fn`.
    pub transform: Option<Seq<char>>,
    /// The last `is_fallible`; `false` without one.
    pub fallible: bool,
    /// Whether any `ignore` or `exclude = true` was given.
    pub skip: bool,
    /// The literal of the last `default_value`.
    pub default_value: Option<Seq<char>>,
}

/// The plan before any argument.
pub open spec fn empty_plan() -> FieldPlan {
    FieldPlan { rename: None, transform: None, fallible: false, skip: false, default_value: None }
}

/// The plan after one more argument.
pub open spec fn plan_step(p: FieldPlan, a: FieldArgView) -> FieldPlan {
    match a {
        FieldArgView::ConvertFieldFn(s, token) => FieldPlan {
            transform: if str_literal_is_mod_style_path(token) { Some(s) } else { None },
            ..p
        },
        FieldArgView::Rename(r) => FieldPlan { rename: Some(r), ..p },
        FieldArgView::Ignore => FieldPlan { skip: true, ..p },
        FieldArgView::Exclude(b) => if b { FieldPlan { skip: true, ..p } } else { p },
        FieldArgView::IsFallible(b) => FieldPlan { fallible: b, ..p },
        FieldArgView::DefaultValue(v) => FieldPlan { default_value: Some(v), ..p },
    }
}

/// The plan of a list of arguments, read from first to last.
pub open spec fn field_plan(args: Seq<FieldArgView>) -> FieldPlan
    decreases args.len(),
{
    if args.len() == 0 {
        empty_plan()
    } else {
        plan_step(field_plan(args.drop_last()), args.last())
    }
}

/// Every `rename` names an identifier.
pub open spec fn renames_valid(args: Seq<FieldArgView>) -> bool {
    forall|i: int| 0 <= i < args.len() ==> (#[trigger] args[i] matches FieldArgView::Rename(r) ==> valid_ident(r))
}

/// The plan as executable values.
pub struct Plan {
    pub rename: Option<String>,
    pub transform: Option<String>,
    pub fallible: bool,
    pub skip: bool,
    pub default_value: Option<String>,
}

/// The view of an optional string.
pub open spec fn opt_view(o: Option<String>) -> Option<Seq<char>> {
    match o {
        Some(s) => Some(s@),
        None => None,
    }
}

impl View for Plan {
    type V = FieldPlan;

    open spec fn view(&self) -> FieldPlan {
        FieldPlan {
            rename: opt_view(self.rename),
            transform: opt_view(self.transform),
            fallible: self.fallible,
            skip: self.skip,
            default_value: opt_view(self.default_value),
        }
    }
}

/// Folds the arguments of one field or variant into their plan.
pub fn plan_of(args: &Vec<BrickeFieldArgs>) -> (r: Plan)
    ensures
        r@ == field_plan(args.deep_view()),
{
    let ghost t = args.deep_view();
    let mut plan = Plan { rename: None, transform: None, fallible: false, skip: false, default_value: None };
    let mut i: usize = 0;
    assert(t.take(0) =~= Seq::<FieldArgView>::empty());
    while i < args.len()
        invariant
            t == args.deep_view(),
            i <= args.len(),
            plan@ == field_plan(t.take(i as int)),
        decreases args.len() - i,
    {
        match &args[i] {
            BrickeFieldArgs::ConvertFieldFn(s, token) => {
                plan.transform = if lit_str_is_mod_style_path(token.as_str()) {
                    Some(s.clone())
                } else {
                    None
                };
            },
            BrickeFieldArgs::Rename(r) => {
                plan.rename = Some(r.clone());
            },
            BrickeFieldArgs::Ignore => {
                plan.skip = true;
            },
            BrickeFieldArgs::Exclude(b) => {
                if *b {
                    plan.skip = true;
                }
            },
            BrickeFieldArgs::IsFallible(b) => {
                plan.fallible = *b;
            },
            BrickeFieldArgs::DefaultValue(v) => {
                plan.default_value = Some(v.clone());
            },
        }
        assert(t.take(i + 1).drop_last() =~= t.take(i as int));
        i = i + 1;
    }
    assert(t.take(args.len() as int) =~= t);
    plan
}

/// The first `rename` that does not name an identifier.
pub open spec fn first_invalid_rename(args: Seq<FieldArgView>) -> Option<Seq<char>>
    decreases args.len(),
{
    if args.len() == 0 {
        None
    } else if args[0] matches FieldArgView::Rename(r) && !valid_ident(r) {
        Some(args[0]->Rename_0)
    } else {
        first_invalid_rename(args.drop_first())
    }
}

/// There is no invalid `rename` exactly when every `rename` is valid.
pub proof fn lemma_first_invalid_rename(args: Seq<FieldArgView>)
    ensures
        first_invalid_rename(args) is None <==> renames_valid(args),
    decreases args.len(),
{
    if args.len() > 0 {
        lemma_first_invalid_rename(args.drop_first());
        if renames_valid(args.drop_first()) && !(args[0] matches FieldArgView::Rename(r) && !valid_ident(r)) {
            assert forall|i: int| 0 <= i < args.len() implies (#[trigger] args[i] matches FieldArgView::Rename(
                r,
            ) ==> valid_ident(r)) by {
                if i > 0 {
                    assert(args[i] == args.drop_first()[i - 1]);
                }
            }
        }
        if renames_valid(args) {
            assert forall|i: int| 0 <= i < args.drop_first().len() implies (
            #[trigger] args.drop_first()[i] matches FieldArgView::Rename(r) ==> valid_ident(r)) by {
                assert(args.drop_first()[i] == args[i + 1]);
            }
            assert(args[0] matches FieldArgView::Rename(r) ==> valid_ident(r));
        }
    }
}

/// Finds the first `rename` that does not name an identifier.
pub fn find_invalid_rename(args: &Vec<BrickeFieldArgs>) -> (r: Option<String>)
    ensures
        opt_view(r) == first_invalid_rename(args.deep_view()),
{
    let ghost t = args.deep_view();
    let mut i: usize = 0;
    assert(t.skip(0) =~= t);
    while i < args.len()
        invariant
            t == args.deep_view(),
            i <= args.len(),
            first_invalid_rename(t) == first_invalid_rename(t.skip(i as int)),
        decreases args.len() - i,
    {
        assert(t.skip(i as int)[0] == t[i as int]);
        assert(t.skip(i as int).drop_first() =~= t.skip(i + 1));
        if let BrickeFieldArgs::Rename(r) = &args[i] {
            if !is_valid_ident(r.as_str()) {
                return Some(r.clone());
            }
        }
        i = i + 1;
    }
    assert(t.skip(args.len() as int) =~= Seq::<FieldArgView>::empty());
    None
}

} // verus!
