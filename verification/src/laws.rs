//! Properties that hold of every input: how the arguments of a field or a
//! variant combine, which attributes the conversion reads, and which
//! arguments of `#[bricke(..)]` matter for which conversion.
use vstd::prelude::*;
use crate::attributes::{
    lemma_meta_path_advances, lemma_parse_meta_advances, path_ident, spec_conversion_template, spec_meta_path,
    spec_nested, spec_parse_args, spec_parse_meta, spec_path_tail, AttributesView, ConverterType,
};
use crate::fields::enums::spec_enum_template;
use crate::fields::structure::spec_struct_template;
use crate::fields::{field_plan, spec_field_arg, spec_field_args, FieldArgView};
use crate::item::enum_item::InnerFieldsView;
use crate::attributes::MetaPathView;
use crate::item::{spec_collect_args, spec_is_field_attribute, AttrMetaView, AttributeView, SupportedType};
use crate::token::{punct_at, Parsed, ParseErrorView, TokenView};

verus! {

/// An argument that leaves out the field or variant: `ignore`, or
/// `exclude = true`.
pub open spec fn leaves_out(a: FieldArgView) -> bool {
    a == FieldArgView::Ignore || a == FieldArgView::Exclude(true)
}

/// Once an argument that leaves out is read, it stays whatever follows.
proof fn lemma_plan_skip(args: Seq<FieldArgView>, k: int)
    requires
        0 <= k < args.len(),
        leaves_out(args[k]),
    ensures
        field_plan(args).skip,
    decreases args.len(),
{
    if k < args.len() - 1 {
        lemma_plan_skip(args.drop_last(), k);
    }
}

/// A field with `ignore` or `exclude = true` among its arguments takes its
/// default value, whatever its other arguments say.
pub proof fn law_ignored_field_takes_default(name: Seq<char>, args: Seq<FieldArgView>, k: int)
    requires
        0 <= k < args.len(),
        leaves_out(args[k]),
    ensures
        spec_struct_template(name, args) == name + ": Default::default()"@,
{
    lemma_plan_skip(args, k);
}

/// A variant with `ignore` or `exclude = true` among its arguments gets no
/// arm, whatever its other arguments say.
pub proof fn law_ignored_variant_has_no_arm(
    name: Seq<char>,
    source: Option<Seq<char>>,
    args: Seq<FieldArgView>,
    inner: InnerFieldsView,
    k: int,
)
    requires
        0 <= k < args.len(),
        leaves_out(args[k]),
    ensures
        spec_enum_template(name, source, args, inner) == Seq::<char>::empty(),
{
    lemma_plan_skip(args, k);
}

/// `is_fallible` changes a field's entry only together with a usable
/// `transform_fn`: without one, adding `is_fallible` anywhere changes
/// nothing.
pub proof fn law_fallible_needs_transform(name: Seq<char>, args: Seq<FieldArgView>, b: bool)
    requires
        field_plan(args).transform is None,
    ensures
        spec_struct_template(name, args.push(FieldArgView::IsFallible(b))) == spec_struct_template(name, args),
{
    assert(args.push(FieldArgView::IsFallible(b)).drop_last() =~= args);
}

/// An attribute other than `#[bricke_field(..)]`, inserted anywhere among
/// the attributes of a field or variant, does not change what is read.
pub proof fn law_other_attributes_ignored(attrs: Seq<AttributeView>, other: AttributeView, k: int)
    requires
        0 <= k <= attrs.len(),
        !spec_is_field_attribute(other.path),
    ensures
        spec_collect_args(attrs.insert(k, other)) == spec_collect_args(attrs),
    decreases attrs.len(),
{
    let with = attrs.insert(k, other);
    if k == attrs.len() {
        assert(with.drop_last() =~= attrs);
    } else {
        law_other_attributes_ignored(attrs.drop_last(), other, k);
        assert(with.drop_last() =~= attrs.drop_last().insert(k, other));
        assert(with.last() == attrs.last());
    }
}

/// The error type matters only to `TryFrom`: a `From` conversion is the
/// same whatever `try_error_type` says.
pub proof fn law_error_type_only_for_try_from(
    a: AttributesView,
    error_kind: Option<Seq<char>>,
    target: Seq<char>,
    fields: Seq<Seq<char>>,
    supported_type: SupportedType,
    target_lifetimes: Seq<Seq<char>>,
)
    requires
        a.converter == ConverterType::From,
    ensures
        spec_conversion_template(AttributesView { error_kind, ..a }, target, fields, supported_type, target_lifetimes)
            == spec_conversion_template(a, target, fields, supported_type, target_lifetimes),
{
}

/// A parse result moved `n` positions to the right.
pub open spec fn shifted<T>(r: Parsed<T>, n: int) -> Parsed<T> {
    match r {
        Ok((v, j)) => Ok((v, j + n)),
        Err(e) => Err(e),
    }
}

/// Reading an argument after a prefix reads the same argument.
proof fn lemma_field_arg_shift(p: Seq<TokenView>, t: Seq<TokenView>, k: int)
    requires
        0 <= k,
    ensures
        spec_field_arg(p + t, p.len() + k) == shifted(spec_field_arg(t, k), p.len() as int),
{
    let c = p + t;
    assert forall|m: int| 0 <= m < t.len() implies c[p.len() + m] == t[m] by {}
}

/// Reading the arguments after a prefix reads the same arguments.
proof fn lemma_field_args_shift(p: Seq<TokenView>, t: Seq<TokenView>, k: int, acc: Seq<FieldArgView>)
    requires
        0 <= k,
    ensures
        spec_field_args(p + t, p.len() + k, acc) == spec_field_args(t, k, acc),
    decreases t.len() - k,
{
    let c = p + t;
    if k < t.len() {
        lemma_field_arg_shift(p, t, k);
        crate::fields::lemma_field_arg_advances(t, k);
        if let Ok((a, j)) = spec_field_arg(t, k) {
            assert(c.len() == p.len() + t.len());
            if j < t.len() {
                assert(c[p.len() + j] == t[j]);
                if punct_at(t, j, ',') {
                    lemma_field_args_shift(p, t, j + 1, acc.push(a));
                    assert(p.len() + j + 1 == p.len() + (j + 1));
                }
            }
        }
    }
}

/// The arguments read after some are already known come after them.
proof fn lemma_field_args_acc(t: Seq<TokenView>, k: int, acc: Seq<FieldArgView>)
    ensures
        spec_field_args(t, k, acc) == match spec_field_args(t, k, Seq::empty()) {
            Ok(r) => Ok::<Seq<FieldArgView>, ParseErrorView>(acc + r),
            Err(e) => Err(e),
        },
    decreases t.len() - k,
{
    if k < t.len() {
        crate::fields::lemma_field_arg_advances(t, k);
        if let Ok((a, j)) = spec_field_arg(t, k) {
            if j >= t.len() {
                assert(acc.push(a) =~= acc + Seq::<FieldArgView>::empty().push(a));
            } else if punct_at(t, j, ',') {
                lemma_field_args_acc(t, j + 1, acc.push(a));
                lemma_field_args_acc(t, j + 1, Seq::<FieldArgView>::empty().push(a));
                if let Ok(r) = spec_field_args(t, j + 1, Seq::empty()) {
                    assert(acc.push(a) + r =~= acc + (Seq::<FieldArgView>::empty().push(a) + r));
                }
            }
        }
    } else {
        assert(acc + Seq::<FieldArgView>::empty() =~= acc);
    }
}

/// Before the end of `t1`, an argument reads the same whether `t1` stands
/// alone or is followed by `,`: each check that fails at the end of `t1`
/// fails on the `,` too.
proof fn lemma_field_arg_before_comma(t1: Seq<TokenView>, t2: Seq<TokenView>, i: int)
    requires
        0 <= i < t1.len(),
    ensures
        spec_field_arg(t1 + seq![TokenView::Punct(',', false)] + t2, i) == spec_field_arg(t1, i),
{
    let c = t1 + seq![TokenView::Punct(',', false)] + t2;
    assert forall|m: int| 0 <= m < t1.len() implies c[m] == t1[m] by {}
    assert(c[t1.len() as int] == TokenView::Punct(',', false));
}

/// Arguments read from `i` inside `t1`, followed by `,` and `t2`: those of
/// `t1`, then those of `t2`.
proof fn lemma_field_args_concat(t1: Seq<TokenView>, t2: Seq<TokenView>, i: int, acc: Seq<FieldArgView>)
    requires
        0 <= i < t1.len(),
        !punct_at(t1, t1.len() - 1, ','),
    ensures
        spec_field_args(t1 + seq![TokenView::Punct(',', false)] + t2, i, acc) == match spec_field_args(t1, i, acc) {
            Err(e) => Err(e),
            Ok(r) => spec_field_args(t2, 0, r),
        },
    decreases t1.len() - i,
{
    let comma = seq![TokenView::Punct(',', false)];
    let c = t1 + comma + t2;
    assert forall|m: int| 0 <= m < t1.len() implies c[m] == t1[m] by {}
    lemma_field_arg_before_comma(t1, t2, i);
    crate::fields::lemma_field_arg_advances(t1, i);
    if let Ok((a, j)) = spec_field_arg(t1, i) {
        if j == t1.len() {
            assert(c[j] == TokenView::Punct(',', false));
            assert(c =~= (t1 + comma) + t2);
            lemma_field_args_shift(t1 + comma, t2, 0, acc.push(a));
        } else if punct_at(t1, j, ',') {
            lemma_field_args_concat(t1, t2, j + 1, acc.push(a));
        }
    }
}

/// One `#[bricke_field(a, b)]` reads as `#[bricke_field(a)]` followed by
/// `#[bricke_field(b)]`: the arguments of a field may be split over
/// several attributes at any `,`, as long as the first part is not empty
/// and does not itself end with `,`.
pub proof fn law_split_field_attribute(path: MetaPathView, t1: Seq<TokenView>, t2: Seq<TokenView>)
    requires
        spec_is_field_attribute(path),
        t1.len() > 0,
        !punct_at(t1, t1.len() - 1, ','),
    ensures
        spec_collect_args(seq![AttributeView {
            path,
            meta: AttrMetaView::List(t1 + seq![TokenView::Punct(',', false)] + t2),
        }]) == spec_collect_args(seq![
            AttributeView { path, meta: AttrMetaView::List(t1) },
            AttributeView { path, meta: AttrMetaView::List(t2) },
        ]),
{
    let joined = seq![AttributeView { path, meta: AttrMetaView::List(t1 + seq![TokenView::Punct(',', false)] + t2) }];
    let split = seq![
        AttributeView { path, meta: AttrMetaView::List(t1) },
        AttributeView { path, meta: AttrMetaView::List(t2) },
    ];
    let c = t1 + seq![TokenView::Punct(',', false)] + t2;
    let first = seq![AttributeView { path, meta: AttrMetaView::List(t1) }];
    lemma_field_args_concat(t1, t2, 0, Seq::empty());
    assert(joined.drop_last() =~= Seq::<AttributeView>::empty());
    assert(split.drop_last() =~= first);
    assert(first.drop_last() =~= Seq::<AttributeView>::empty());
    assert(spec_collect_args(Seq::<AttributeView>::empty()) == Ok::<Seq<FieldArgView>, ParseErrorView>(Seq::empty()));
    assert(joined.last() == AttributeView { path, meta: AttrMetaView::List(c) });
    assert(split.last() == AttributeView { path, meta: AttrMetaView::List(t2) });
    assert(first.last() == AttributeView { path, meta: AttrMetaView::List(t1) });
    match spec_field_args(t1, 0, Seq::empty()) {
        Err(e) => {
            assert(spec_collect_args(first) == Err::<Seq<FieldArgView>, ParseErrorView>(e));
            assert(spec_collect_args(joined) == Err::<Seq<FieldArgView>, ParseErrorView>(e));
        },
        Ok(r1) => {
            lemma_field_args_acc(t2, 0, r1);
            assert(Seq::<FieldArgView>::empty() + r1 =~= r1);
            assert(spec_collect_args(first) == Ok::<Seq<FieldArgView>, ParseErrorView>(r1));
            match spec_field_args(t2, 0, Seq::empty()) {
                Err(e) => {
                    assert(spec_collect_args(joined) == Err::<Seq<FieldArgView>, ParseErrorView>(e));
                },
                Ok(r2) => {
                    assert(Seq::<FieldArgView>::empty() + (r1 + r2) =~= r1 + r2);
                    assert(spec_collect_args(joined) == Ok::<Seq<FieldArgView>, ParseErrorView>(r1 + r2));
                },
            }
        },
    }
}

/// Reading more segments keeps the segments read so far in front.
proof fn lemma_path_tail_keeps_first(t: Seq<TokenView>, k: int, segs: Seq<Seq<char>>)
    requires
        segs.len() > 0,
    ensures
        spec_path_tail(t, k, segs) matches Ok((s, _)) ==> s.len() >= segs.len() && s[0] == segs[0],
    decreases t.len() - k,
{
    if crate::token::colon2_at(t, k) && k + 2 < t.len() && t[k + 2] is Ident {
        lemma_path_tail_keeps_first(t, k + 3, segs.push(t[k + 2]->Ident_0));
    }
}

/// The key of a nested attribute is one of the identifier tokens.
proof fn lemma_meta_key_is_token(t: Seq<TokenView>, i: int)
    requires
        0 <= i,
    ensures
        spec_meta_path(t, i) matches Ok((p, _)) ==> (path_ident(p) matches Some(name) ==> exists|k: int|
            0 <= k < t.len() && t[k] == TokenView::Ident(name)),
{
    let lead = crate::token::colon2_at(t, i);
    let j = if lead { i + 2 } else { i };
    if 0 <= j < t.len() && t[j] is Ident {
        lemma_path_tail_keeps_first(t, j + 1, seq![t[j]->Ident_0]);
        if let Ok((p, _)) = spec_meta_path(t, i) {
            if let Some(name) = path_ident(p) {
                assert(t[j] == TokenView::Ident(name));
            }
        }
    }
}

/// Without the key `converter`, reading the rest keeps the converter.
proof fn lemma_nested_keeps_converter(a: AttributesView, t: Seq<TokenView>, i: int)
    requires
        forall|k: int| 0 <= k < t.len() ==> t[k] != TokenView::Ident("converter"@),
    ensures
        spec_nested(a, t, i) matches Ok(b) ==> b.converter == a.converter,
    decreases t.len() - i,
{
    if i >= 0 {
        lemma_meta_key_is_token(t, i);
        if let Ok((p, j)) = spec_meta_path(t, i) {
            if let Ok((a2, k)) = spec_parse_meta(a, p, t, j) {
                assert(a2.converter == a.converter);
                if k < t.len() && punct_at(t, k, ',') && k + 1 < t.len() {
                    lemma_meta_path_advances(t, i);
                    lemma_parse_meta_advances(a, p, t, j);
                    lemma_nested_keeps_converter(a2, t, k + 1);
                }
            }
        }
    }
}

/// The conversion is `From` unless the arguments of `#[bricke(..)]` name
/// the key `converter`.
pub proof fn law_converter_defaults_to_from(t: Seq<TokenView>)
    requires
        forall|k: int| 0 <= k < t.len() ==> t[k] != TokenView::Ident("converter"@),
    ensures
        spec_parse_args(t) matches Ok(a) ==> a.converter == ConverterType::From,
{
    if t.len() > 0 {
        lemma_nested_keeps_converter(crate::attributes::default_attributes(), t, 0);
    }
}

/// The kind of a field argument; arguments of one kind override each other.
pub open spec fn arg_kind(a: FieldArgView) -> int {
    match a {
        FieldArgView::ConvertFieldFn(..) => 0,
        FieldArgView::Rename(_) => 1,
        FieldArgView::Ignore => 2,
        FieldArgView::Exclude(_) => 3,
        FieldArgView::IsFallible(_) => 4,
        FieldArgView::DefaultValue(_) => 5,
    }
}

/// No two arguments of `args` are of the same kind.
pub open spec fn kinds_distinct(args: Seq<FieldArgView>) -> bool {
    forall|i: int, j: int| 0 <= i < j < args.len() ==> arg_kind(#[trigger] args[i]) != arg_kind(#[trigger] args[j])
}

proof fn lemma_step_commutes(p: crate::fields::FieldPlan, a: FieldArgView, b: FieldArgView)
    requires
        arg_kind(a) != arg_kind(b),
    ensures
        crate::fields::plan_step(crate::fields::plan_step(p, a), b) == crate::fields::plan_step(
            crate::fields::plan_step(p, b),
            a,
        ),
{
}

/// An argument inserted before arguments of other kinds only acts as if it
/// came last.
proof fn lemma_plan_insert(s: Seq<FieldArgView>, k: int, x: FieldArgView)
    requires
        0 <= k <= s.len(),
        forall|m: int| k <= m < s.len() ==> arg_kind(#[trigger] s[m]) != arg_kind(x),
    ensures
        field_plan(s.insert(k, x)) == crate::fields::plan_step(field_plan(s), x),
    decreases s.len(),
{
    let w = s.insert(k, x);
    if k == s.len() {
        assert(w.drop_last() =~= s);
        assert(w.last() == x);
    } else {
        assert(w.drop_last() =~= s.drop_last().insert(k, x));
        assert(w.last() == s.last());
        assert(s[s.len() - 1] == s.last());
        lemma_plan_insert(s.drop_last(), k, x);
        lemma_step_commutes(field_plan(s.drop_last()), x, s.last());
    }
}

/// Arguments of pairwise different kinds give the same plan in any order.
proof fn lemma_plan_permutation(args1: Seq<FieldArgView>, args2: Seq<FieldArgView>)
    requires
        kinds_distinct(args1),
        args1.to_multiset() == args2.to_multiset(),
    ensures
        field_plan(args1) == field_plan(args2),
    decreases args2.len(),
{
    vstd::seq_lib::to_multiset_len(args1);
    vstd::seq_lib::to_multiset_len(args2);
    if args2.len() > 0 {
        let x = args2.last();
        let rest2 = args2.drop_last();
        assert(rest2.push(x) =~= args2);
        vstd::seq_lib::to_multiset_build(rest2, x);
        vstd::seq_lib::to_multiset_contains(args1, x);
        assert(args1.contains(x));
        let k = choose|k: int| 0 <= k < args1.len() && args1[k] == x;
        let rest1 = args1.remove(k);
        vstd::seq_lib::to_multiset_remove(args1, k);
        assert(rest1.to_multiset() =~= rest2.to_multiset());
        assert forall|i: int, j: int| 0 <= i < j < rest1.len() implies arg_kind(#[trigger] rest1[i]) != arg_kind(
            #[trigger] rest1[j],
        ) by {
            let i1 = if i < k { i } else { i + 1 };
            let j1 = if j < k { j } else { j + 1 };
            assert(rest1[i] == args1[i1]);
            assert(rest1[j] == args1[j1]);
            assert(arg_kind(args1[i1]) != arg_kind(args1[j1]));
        }
        lemma_plan_permutation(rest1, rest2);
        assert forall|m: int| k <= m < rest1.len() implies arg_kind(#[trigger] rest1[m]) != arg_kind(x) by {
            assert(rest1[m] == args1[m + 1]);
            assert(arg_kind(args1[k]) != arg_kind(args1[m + 1]));
        }
        lemma_plan_insert(rest1, k, x);
        assert(rest1.insert(k, x) =~= args1);
    }
}

/// The order of the arguments of a field does not matter as long as no two
/// are of the same kind: any reordering gives the same entry.
pub proof fn law_field_argument_order(name: Seq<char>, args1: Seq<FieldArgView>, args2: Seq<FieldArgView>)
    requires
        kinds_distinct(args1),
        args1.to_multiset() == args2.to_multiset(),
    ensures
        spec_struct_template(name, args2) == spec_struct_template(name, args1),
{
    lemma_plan_permutation(args1, args2);
}

/// The order of the arguments of a variant does not matter as long as no
/// two are of the same kind: any reordering gives the same arm.
pub proof fn law_variant_argument_order(
    name: Seq<char>,
    source: Option<Seq<char>>,
    args1: Seq<FieldArgView>,
    args2: Seq<FieldArgView>,
    inner: InnerFieldsView,
)
    requires
        kinds_distinct(args1),
        args1.to_multiset() == args2.to_multiset(),
    ensures
        spec_enum_template(name, source, args2, inner) == spec_enum_template(name, source, args1, inner),
{
    lemma_plan_permutation(args1, args2);
}

/// The arguments that can change a variant's arm: all but `is_fallible`
/// and `default_value`.
pub open spec fn shapes_arm(a: FieldArgView) -> bool {
    !(a is IsFallible || a is DefaultValue)
}

/// What of a plan a variant's arm reads stays the same without the
/// arguments that do not shape arms.
proof fn lemma_plan_arm_filter(args: Seq<FieldArgView>)
    ensures
        ({
            let p = field_plan(args);
            let q = field_plan(args.filter(|a: FieldArgView| shapes_arm(a)));
            p.rename == q.rename && p.transform == q.transform && p.skip == q.skip
        }),
    decreases args.len(),
{
    reveal(Seq::filter);
    let f = |a: FieldArgView| shapes_arm(a);
    if args.len() > 0 {
        lemma_plan_arm_filter(args.drop_last());
        let sub = args.drop_last().filter(f);
        if f(args.last()) {
            assert(args.filter(f) == sub.push(args.last()));
            assert(sub.push(args.last()).drop_last() =~= sub);
        } else {
            assert(args.filter(f) == sub);
        }
    }
}

/// `is_fallible` and `default_value` have no effect on a variant: two
/// argument lists that differ only in such arguments, added or taken away
/// anywhere, give the same arm.
pub proof fn law_variant_ignores_fallible_and_default(
    name: Seq<char>,
    source: Option<Seq<char>>,
    args1: Seq<FieldArgView>,
    args2: Seq<FieldArgView>,
    inner: InnerFieldsView,
)
    requires
        args1.filter(|a: FieldArgView| shapes_arm(a)) == args2.filter(|a: FieldArgView| shapes_arm(a)),
    ensures
        spec_enum_template(name, source, args2, inner) == spec_enum_template(name, source, args1, inner),
{
    lemma_plan_arm_filter(args1);
    lemma_plan_arm_filter(args2);
}

} // verus!
