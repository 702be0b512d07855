//! Facts about Rust syntax that the library takes from `syn` and
//! `unicode-ident`: the value of a string literal, whether a string holds a
//! path, a type or a plain identifier, and which characters may start or
//! continue an identifier.
use vstd::prelude::*;

verus! {

/// The value of the string literal whose token text is `token`, or `None`
/// where `token` is not a string literal.
pub uninterp spec fn str_literal_value(token: Seq<char>) -> Option<Seq<char>>;

/// Whether the string literal whose token text is `token` holds a path in
/// the module style (no generic arguments) and carries no suffix.
pub uninterp spec fn str_literal_is_mod_style_path(token: Seq<char>) -> bool;

/// Whether `text` reads as a type.
pub uninterp spec fn reads_as_type(text: Seq<char>) -> bool;

/// Whether `text` reads as an identifier that is not a keyword.
pub uninterp spec fn reads_as_plain_ident(text: Seq<char>) -> bool;

/// Whether `c` has the Unicode property `XID_Start`.
pub uninterp spec fn xid_start(c: char) -> bool;

/// Whether `c` has the Unicode property `XID_Continue`.
pub uninterp spec fn xid_continue(c: char) -> bool;

/// Reads a string literal token.
///
/// Calls `syn::parse_str::<syn::LitStr>` on the token text and, on success,
/// `syn::LitStr::value`. The contract claims only that the result is the
/// named value `str_literal_value` of the text; escapes, raw strings and
/// suffixes are left to `syn`.
#[verifier::external_body]
pub(crate) fn lit_str_value(token: &str) -> (r: Option<String>)
    ensures
        match r {
            Some(v) => str_literal_value(token@) == Some(v@),
            None => str_literal_value(token@) is None,
        },
{
    match syn::parse_str::<syn::LitStr>(token) {
        Ok(lit) => Some(lit.value()),
        Err(_) => None,
    }
}

/// Tests whether a string literal holds a module-style path.
///
/// Calls `syn::LitStr::parse_with` with `syn::Path::parse_mod_style` on the
/// literal read by `syn::parse_str::<syn::LitStr>`, as a `transform_fn`
/// value is read. The contract claims only that the answer is the named
/// value `str_literal_is_mod_style_path`.
#[verifier::external_body]
pub(crate) fn lit_str_is_mod_style_path(token: &str) -> (r: bool)
    ensures
        r == str_literal_is_mod_style_path(token@),
{
    match syn::parse_str::<syn::LitStr>(token) {
        Ok(lit) => lit.parse_with(syn::Path::parse_mod_style).is_ok(),
        Err(_) => false,
    }
}

/// Tests whether text reads as a type.
///
/// Calls `syn::parse_str::<syn::Type>`. The contract claims only that the
/// answer is the named value `reads_as_type`.
#[verifier::external_body]
pub(crate) fn is_type(text: &str) -> (r: bool)
    ensures
        r == reads_as_type(text@),
{
    syn::parse_str::<syn::Type>(text).is_ok()
}

/// Tests whether text reads as an identifier that is not a keyword.
///
/// Calls `syn::parse_str::<syn::Ident>`, whose parser refuses keywords. The
/// contract claims only that the answer is the named value
/// `reads_as_plain_ident`.
#[verifier::external_body]
pub(crate) fn is_plain_ident(text: &str) -> (r: bool)
    ensures
        r == reads_as_plain_ident(text@),
{
    syn::parse_str::<syn::Ident>(text).is_ok()
}

/// Calls `unicode_ident::is_xid_start`; the contract names its result.
#[verifier::external_body]
fn char_is_xid_start(c: char) -> (r: bool)
    ensures
        r == xid_start(c),
{
    unicode_ident::is_xid_start(c)
}

/// Calls `unicode_ident::is_xid_continue`; the contract names its result.
#[verifier::external_body]
fn char_is_xid_continue(c: char) -> (r: bool)
    ensures
        r == xid_continue(c),
{
    unicode_ident::is_xid_continue(c)
}

/// Whether `s` may be made into an identifier: it is not empty, it starts
/// with `_` or an `XID_Start` character, and every later character is
/// `XID_Continue`. This is the test that `proc_macro2::Ident::new` applies
/// before it accepts a string.
pub open spec fn valid_ident(s: Seq<char>) -> bool {
    &&& s.len() > 0
    &&& (s[0] == '_' || xid_start(s[0]))
    &&& forall|i: int| 1 <= i < s.len() ==> xid_continue(#[trigger] s[i])
}

/// Decides `valid_ident`.
pub fn is_valid_ident(s: &str) -> (r: bool)
    ensures
        r == valid_ident(s@),
{
    let n = s.unicode_len();
    if n == 0 {
        return false;
    }
    let first = s.get_char(0);
    if first != '_' && !char_is_xid_start(first) {
        return false;
    }
    let mut i: usize = 1;
    while i < n
        invariant
            n == s@.len(),
            1 <= i <= n,
            forall|j: int| 1 <= j < i ==> xid_continue(#[trigger] s@[j]),
        decreases n - i,
    {
        if !char_is_xid_continue(s.get_char(i)) {
            return false;
        }
        i = i + 1;
    }
    true
}

} // verus!
