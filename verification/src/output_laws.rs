//! Properties of the generated text over all inputs: the names bound to a
//! variant's fields, the lifetimes read, where a renamed source field or
//! variant appears, and how a `TryFrom` conversion relates to a `From` one.
use vstd::prelude::*;
use crate::item::enum_item::{arg_name, arg_names, decimal, digit_char};
use crate::attributes::{default_attributes, spec_lifetimes, spec_parse_args, AttributesView, LifetimeListView};
use crate::token::TokenView;
use crate::attributes::{conversion_body, spec_conversion_template, ConverterType};
use crate::fields::{field_plan, FieldArgView};
use crate::fields::enums::{name_or_empty, spec_enum_template};
use crate::fields::structure::spec_struct_template;
use crate::item::enum_item::InnerFieldsView;
use crate::item::SupportedType;
use crate::laws::leaves_out;

verus! {

/// The character `c` is one of the decimal digits `0` to `9`.
pub open spec fn is_digit(c: char) -> bool {
    '0' as int <= c as int <= '9' as int
}

/// The number that the decimal digits `s` stand for, most significant
/// first.
pub open spec fn numeral_value(s: Seq<char>) -> int
    decreases s.len(),
{
    if s.len() == 0 {
        0
    } else {
        numeral_value(s.drop_last()) * 10 + (s.last() as int - '0' as int)
    }
}

/// The digit written for `d` stands for `d`.
proof fn lemma_digit_char_value(d: nat)
    requires
        d < 10,
    ensures
        digit_char(d) as int - '0' as int == d,
{
    assert('0' as int == 48);
    assert('1' as int == 49);
    assert('2' as int == 50);
    assert('3' as int == 51);
    assert('4' as int == 52);
    assert('5' as int == 53);
    assert('6' as int == 54);
    assert('7' as int == 55);
    assert('8' as int == 56);
    assert('9' as int == 57);
}

/// `decimal(n)` is the base-10 numeral of `n`: a non-empty string of
/// digits, with no leading zero unless it is `0` itself, whose value is `n`.
pub proof fn law_decimal_is_numeral(n: nat)
    ensures
        decimal(n).len() > 0,
        forall|k: int| 0 <= k < decimal(n).len() ==> is_digit(#[trigger] decimal(n)[k]),
        decimal(n).len() > 1 ==> decimal(n)[0] != '0',
        numeral_value(decimal(n)) == n,
    decreases n,
{
    if n >= 10 {
        law_decimal_is_numeral(n / 10);
        let s = decimal(n / 10);
        let d = (n % 10) as nat;
        lemma_digit_char_value(d);
        assert(decimal(n) == s.push(digit_char(d)));
        assert(decimal(n).drop_last() =~= s);
        assert(decimal(n)[0] == s[0]);
        assert(n == (n / 10) * 10 + d);
        assert forall|k: int| 0 <= k < decimal(n).len() implies is_digit(#[trigger] decimal(n)[k]) by {
            if k < s.len() {
                assert(decimal(n)[k] == s[k]);
            } else {
                assert(decimal(n)[k] == digit_char(d));
            }
        }
        assert(decimal(n).last() == digit_char(d));
        assert(numeral_value(decimal(n)) == numeral_value(s) * 10 + d);
        if s.len() == 1 {
            assert(s.drop_last() =~= Seq::<char>::empty());
            assert(numeral_value(Seq::<char>::empty()) == 0);
            assert(s.last() == s[0]);
            assert(numeral_value(s) == s[0] as int - '0' as int);
        }
    } else {
        lemma_digit_char_value(n);
        assert(decimal(n) == seq![digit_char(n)]);
        assert(decimal(n).drop_last() =~= Seq::<char>::empty());
        assert(numeral_value(Seq::<char>::empty()) == 0);
        assert(decimal(n).last() == digit_char(n));
    }
}

/// Two numerals that are equal stand for the same number.
proof fn lemma_decimal_injective(i: nat, j: nat)
    requires
        decimal(i) == decimal(j),
    ensures
        i == j,
{
    law_decimal_is_numeral(i);
    law_decimal_is_numeral(j);
}

/// The fields of a variant are bound to pairwise different names
/// `arg_0`, `arg_1`, ...: the name of each field tells its position.
pub proof fn law_arg_names_distinct(count: nat, i: int, j: int)
    requires
        0 <= i < count,
        0 <= j < count,
        i != j,
    ensures
        arg_names(count)[i] != arg_names(count)[j],
        arg_names(count)[i] == "arg_"@ + decimal(i as nat),
{
    let a = arg_name(i as nat);
    let b = arg_name(j as nat);
    if a == b {
        let p = "arg_"@;
        assert(a.subrange(p.len() as int, a.len() as int) =~= decimal(i as nat));
        assert(b.subrange(p.len() as int, b.len() as int) =~= decimal(j as nat));
        lemma_decimal_injective(i as nat, j as nat);
    }
}

/// The tokens of the lifetimes `'n` for each of `names`, separated by `,`,
/// with one more `,` at the end where `trailing_comma`.
pub open spec fn lifetime_tokens(names: Seq<Seq<char>>, trailing_comma: bool) -> Seq<TokenView>
    decreases names.len(),
{
    if names.len() == 0 {
        Seq::empty()
    } else if names.len() == 1 {
        seq![TokenView::Punct('\'', true), TokenView::Ident(names[0])] + if trailing_comma {
            seq![TokenView::Punct(',', false)]
        } else {
            Seq::empty()
        }
    } else {
        seq![TokenView::Punct('\'', true), TokenView::Ident(names[0]), TokenView::Punct(',', false)]
            + lifetime_tokens(names.drop_first(), trailing_comma)
    }
}

/// Reading a list of lifetimes after the names `acc` keeps every name, in
/// order, and whether the list ends with `,`.
proof fn lemma_read_lifetime_tokens(p: Seq<TokenView>, names: Seq<Seq<char>>, trailing_comma: bool, acc: Seq<Seq<char>>)
    requires
        names.len() > 0,
    ensures
        spec_lifetimes(p + lifetime_tokens(names, trailing_comma), p.len() as int, acc) == Ok::<(LifetimeListView, int), crate::token::ParseErrorView>((
            LifetimeListView { names: acc + names, trailing_comma },
            (p + lifetime_tokens(names, trailing_comma)).len() as int,
        )),
    decreases names.len(),
{
    let t = p + lifetime_tokens(names, trailing_comma);
    let k = p.len() as int;
    assert(t[k] == TokenView::Punct('\'', true));
    assert(t[k + 1] == TokenView::Ident(names[0]));
    if names.len() == 1 {
        assert(acc.push(names[0]) =~= acc + names);
        if trailing_comma {
            assert(t[k + 2] == TokenView::Punct(',', false));
            assert(t.len() == k + 3);
            assert(spec_lifetimes(t, k + 3, acc.push(names[0])) == Ok::<(LifetimeListView, int), crate::token::ParseErrorView>((
                LifetimeListView { names: acc.push(names[0]), trailing_comma: true },
                k + 3,
            )));
        } else {
            assert(t.len() == k + 2);
        }
    } else {
        let p2 = p + seq![TokenView::Punct('\'', true), TokenView::Ident(names[0]), TokenView::Punct(',', false)];
        assert(t =~= p2 + lifetime_tokens(names.drop_first(), trailing_comma));
        assert(t[k + 2] == TokenView::Punct(',', false));
        lemma_read_lifetime_tokens(p2, names.drop_first(), trailing_comma, acc.push(names[0]));
        assert(acc.push(names[0]) + names.drop_first() =~= acc + names);
    }
}

/// `lifetimes = 'n1, .., 'nk` (k >= 1, with or without a trailing `,`)
/// gives exactly the names `n1, .., nk` in order, and keeps whether the list
/// ends with `,`; nothing else of the attributes changes.
pub proof fn law_lifetimes_are_read_whole(names: Seq<Seq<char>>, trailing_comma: bool)
    requires
        names.len() > 0,
    ensures
        spec_parse_args(seq![TokenView::Ident("lifetimes"@), TokenView::Punct('=', false)] + lifetime_tokens(
            names,
            trailing_comma,
        )) == Ok::<AttributesView, crate::token::ParseErrorView>(
            AttributesView { lifetimes: Some(LifetimeListView { names, trailing_comma }), ..default_attributes() },
        ),
{
    let p = seq![TokenView::Ident("lifetimes"@), TokenView::Punct('=', false)];
    let t = p + lifetime_tokens(names, trailing_comma);
    lemma_read_lifetime_tokens(p, names, trailing_comma, Seq::empty());
    assert(Seq::<Seq<char>>::empty() + names =~= names);
    assert(t[0] == TokenView::Ident("lifetimes"@));
    assert(t[1] == TokenView::Punct('=', false));
    reveal_strlit("lifetimes");
    reveal_strlit("converter");
    reveal_strlit("source");
    reveal_strlit("try_error_type");
    assert("lifetimes"@[0] != "converter"@[0]);
    assert("lifetimes"@[0] != "source"@[0]);
    assert("lifetimes"@[0] != "try_error_type"@[0]);
}

/// The name of the last `rename` among `args`, if any.
pub open spec fn last_rename(args: Seq<FieldArgView>) -> Option<Seq<char>>
    decreases args.len(),
{
    if args.len() == 0 {
        None
    } else if let FieldArgView::Rename(r) = args.last() {
        Some(r)
    } else {
        last_rename(args.drop_last())
    }
}

/// No argument leaves the field or variant out.
pub open spec fn kept(args: Seq<FieldArgView>) -> bool {
    forall|k: int| 0 <= k < args.len() ==> !leaves_out(#[trigger] args[k])
}

/// The name read from the source: the last `rename`, else `name`.
pub open spec fn source_name(name: Seq<char>, args: Seq<FieldArgView>) -> Seq<char> {
    match last_rename(args) {
        Some(r) => r,
        None => name,
    }
}

/// What the plan says of renames, of leaving out and of default values, in
/// terms of the arguments themselves.
proof fn lemma_plan_facts(args: Seq<FieldArgView>)
    ensures
        field_plan(args).rename == last_rename(args),
        kept(args) ==> !field_plan(args).skip,
        (forall|k: int| 0 <= k < args.len() ==> !(#[trigger] args[k] is DefaultValue)) ==> field_plan(
            args,
        ).default_value is None,
    decreases args.len(),
{
    if args.len() > 0 {
        let d = args.drop_last();
        lemma_plan_facts(d);
        assert(args.last() == args[args.len() - 1]);
        if kept(args) {
            assert forall|k: int| 0 <= k < d.len() implies !leaves_out(#[trigger] d[k]) by {
                assert(d[k] == args[k]);
            }
        }
        if forall|k: int| 0 <= k < args.len() ==> !(#[trigger] args[k] is DefaultValue) {
            assert forall|k: int| 0 <= k < d.len() implies !(#[trigger] d[k] is DefaultValue) by {
                assert(d[k] == args[k]);
            }
        }
    }
}

/// Unless the variant is left out, its arm starts with the variant of the
/// source that it converts: the source type, `::`, the last `rename` or
/// else the variant's own name, then a space; for unit, tuple and named
/// variants alike, with or without a `transform_fn`.
pub proof fn law_arm_matches_source_variant(
    name: Seq<char>,
    source: Option<Seq<char>>,
    args: Seq<FieldArgView>,
    inner: InnerFieldsView,
)
    requires
        kept(args),
    ensures
        ({
            let pre = name_or_empty(source) + "::"@ + source_name(name, args) + " "@;
            let arm = spec_enum_template(name, source, args, inner);
            pre.len() <= arm.len() && arm.subrange(0, pre.len() as int) == pre
        }),
{
    lemma_plan_facts(args);
    let ren = source_name(name, args);
    let variant = name_or_empty(source) + "::"@ + ren;
    let pre = variant + " "@;
    let arm = spec_enum_template(name, source, args, inner);
    let p = field_plan(args);
    reveal_strlit(" ");
    reveal_strlit(" => ");
    reveal_strlit(" => Self::");
    let rest: Seq<char> = match p.transform {
        Some(f) => match inner {
            InnerFieldsView::Unnamed(names) => crate::fields::enums::paren_list(names) + " => Self::"@ + name + "("@
                + f + "\n("@ + crate::fields::enums::paren_list(names) + "))"@,
            InnerFieldsView::Named(names) => crate::fields::enums::brace_list(names) + " => "@ + f + "\n("@
                + crate::text::join(names, ", "@) + ")"@,
            InnerFieldsView::Unit => "=> "@ + f + "\n("@ + variant + ")"@,
        },
        None => match inner {
            InnerFieldsView::Unnamed(names) => crate::fields::enums::paren_list(names) + " => Self::"@ + name + " "@
                + crate::fields::enums::paren_list(names),
            InnerFieldsView::Named(names) => crate::fields::enums::brace_list(names) + " => Self::"@ + name + " "@
                + crate::fields::enums::brace_list(names),
            InnerFieldsView::Unit => "=> Self::"@ + name,
        },
    };
    reveal_strlit("=> ");
    reveal_strlit("=> Self::");
    assert(arm =~= pre + rest);
    assert((pre + rest).subrange(0, pre.len() as int) =~= pre);
}

/// Without `transform_fn`, `default_value` or leaving out, the entry of a
/// field reads the source field named by the last `rename`, or else the
/// field of the same name.
pub proof fn law_entry_reads_source_field(name: Seq<char>, args: Seq<FieldArgView>)
    requires
        kept(args),
        forall|k: int| 0 <= k < args.len() ==> !(#[trigger] args[k] is DefaultValue || args[k] is ConvertFieldFn),
    ensures
        spec_struct_template(name, args) == name + ": "@ + "arg."@ + source_name(name, args),
{
    lemma_plan_facts(args);
    lemma_plan_without_transform(args);
    assert(args.filter(|a: FieldArgView| !(a is ConvertFieldFn)) == args) by {
        lemma_filter_keeps_all(args);
    }
}

/// The arguments without any `transform_fn`.
pub open spec fn without_transform(args: Seq<FieldArgView>) -> Seq<FieldArgView> {
    args.filter(|a: FieldArgView| !(a is ConvertFieldFn))
}

/// A list in which no argument is a `transform_fn` stays as it is.
proof fn lemma_filter_keeps_all(args: Seq<FieldArgView>)
    requires
        forall|k: int| 0 <= k < args.len() ==> !(#[trigger] args[k] is DefaultValue || args[k] is ConvertFieldFn),
    ensures
        args.filter(|a: FieldArgView| !(a is ConvertFieldFn)) == args,
    decreases args.len(),
{
    reveal(Seq::filter);
    if args.len() > 0 {
        let d = args.drop_last();
        assert forall|k: int| 0 <= k < d.len() implies !(#[trigger] d[k] is DefaultValue || d[k] is ConvertFieldFn) by {
            assert(d[k] == args[k]);
        }
        lemma_filter_keeps_all(d);
        assert(args.last() == args[args.len() - 1]);
        assert(d.push(args.last()) =~= args);
    }
}

/// Taking away the `transform_fn` arguments keeps the rest of the plan.
proof fn lemma_plan_without_transform(args: Seq<FieldArgView>)
    ensures
        ({
            let p = field_plan(args);
            let q = field_plan(without_transform(args));
            &&& q.rename == p.rename
            &&& q.default_value == p.default_value
            &&& q.skip == p.skip
            &&& q.fallible == p.fallible
            &&& q.transform is None
        }),
    decreases args.len(),
{
    reveal(Seq::filter);
    let f = |a: FieldArgView| !(a is ConvertFieldFn);
    if args.len() > 0 {
        lemma_plan_without_transform(args.drop_last());
        let sub = args.drop_last().filter(f);
        if f(args.last()) {
            assert(args.filter(f) == sub.push(args.last()));
            assert(sub.push(args.last()).drop_last() =~= sub);
        } else {
            assert(args.filter(f) == sub);
        }
    }
}

/// A `transform_fn` is handed the very value that the entry would take
/// without it: the entry with a usable `transform_fn` `f` is `name: f(v)`
/// (or `f(v)?` with `is_fallible = true`) where `name: v` is the entry of
/// the same arguments without any `transform_fn`.
pub proof fn law_transform_takes_the_plain_value(name: Seq<char>, args: Seq<FieldArgView>)
    requires
        kept(args),
        field_plan(args).transform is Some,
    ensures
        ({
            let prefix = name + ": "@;
            let plain = spec_struct_template(name, without_transform(args));
            let f = field_plan(args).transform.unwrap();
            &&& prefix.len() <= plain.len()
            &&& plain.subrange(0, prefix.len() as int) == prefix
            &&& spec_struct_template(name, args) == prefix + f + "\n"@ + "("@ + plain.subrange(
                prefix.len() as int,
                plain.len() as int,
            ) + if field_plan(args).fallible {
                ")?"@
            } else {
                ")"@
            }
        }),
{
    lemma_plan_facts(args);
    lemma_plan_without_transform(args);
    let prefix = name + ": "@;
    let plain = spec_struct_template(name, without_transform(args));
    let p = field_plan(args);
    let from = match p.rename {
        Some(r) => r,
        None => name,
    };
    let v = match p.default_value {
        Some(d) => "Some("@ + d + ".into())"@,
        None => "arg."@ + from,
    };
    assert(plain == prefix + v);
    assert(plain.subrange(prefix.len() as int, plain.len() as int) =~= v);
    assert(plain.subrange(0, prefix.len() as int) =~= prefix);
    let suffix = if p.fallible { ")?"@ } else { ")"@ };
    assert(spec_struct_template(name, args) =~= prefix + p.transform.unwrap() + "\n"@ + "("@ + v + suffix);
}

/// `s` ends with `suffix`.
pub open spec fn ends_with(s: Seq<char>, suffix: Seq<char>) -> bool {
    suffix.len() <= s.len() && s.subrange(s.len() - suffix.len(), s.len() as int) == suffix
}

/// A `TryFrom` conversion returns `Ok` of the very value that the `From`
/// conversion of the same attributes returns, for a struct as for an enum:
/// the `from` body is the conversion body `b` and the `try_from` body is
/// `Ok(b)`.
pub proof fn law_try_from_returns_ok_of_from_body(
    a: AttributesView,
    target: Seq<char>,
    fields: Seq<Seq<char>>,
    supported_type: SupportedType,
    target_lifetimes: Seq<Seq<char>>,
)
    ensures
        ({
            let b = conversion_body(fields, supported_type);
            let f = spec_conversion_template(
                AttributesView { converter: ConverterType::From, ..a },
                target,
                fields,
                supported_type,
                target_lifetimes,
            );
            let t = spec_conversion_template(
                AttributesView { converter: ConverterType::TryFrom, ..a },
                target,
                fields,
                supported_type,
                target_lifetimes,
            );
            &&& ends_with(f, ") -> Self { "@ + b + " } }"@)
            &&& ends_with(t, ") -> Result<Self, Self::Error> { Ok("@ + b + ") } }"@)
        }),
{
    let b = conversion_body(fields, supported_type);
    let af = AttributesView { converter: ConverterType::From, ..a };
    let at = AttributesView { converter: ConverterType::TryFrom, ..a };
    let f = spec_conversion_template(af, target, fields, supported_type, target_lifetimes);
    let t = spec_conversion_template(at, target, fields, supported_type, target_lifetimes);
    let sf = ") -> Self { "@ + b + " } }"@;
    let st = ") -> Result<Self, Self::Error> { Ok("@ + b + ") } }"@;
    let pf = f.subrange(0, f.len() - sf.len());
    let pt = t.subrange(0, t.len() - st.len());
    let src = a.source.unwrap();
    let sg = crate::attributes::source_generics(a.lifetimes);
    let tg = crate::attributes::target_generics(target_lifetimes);
    let qf = "impl"@ + sg + " From<"@ + src + sg + "> for "@ + target + tg + " { fn from(arg: "@ + src + sg;
    let qt = "impl"@ + sg + " TryFrom<"@ + src + sg + "> for "@ + target + tg + " { type Error = "@
        + a.error_kind.unwrap() + "\n; fn try_from(arg: "@ + src + sg;
    assert(f =~= qf + sf);
    assert(t =~= qt + st);
    assert((qf + sf).subrange(qf.len() as int, (qf + sf).len() as int) =~= sf);
    assert((qt + st).subrange(qt.len() as int, (qt + st).len() as int) =~= st);
}

} // verus!
