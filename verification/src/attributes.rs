//! The arguments of `#[bricke(..)]`: which conversion to generate, from which
//! source type, with which error type and lifetimes; and the `impl` block
//! generated from them.
use vstd::prelude::*;
use crate::item::SupportedType;
use crate::syntax::{is_valid_ident, reads_as_type, valid_ident};
use crate::text::{join, prefixed, push_joined, push_joined_prefixed, str_eq};
use crate::token::{agrees, colon2_at, is_colon2, is_literal, is_punct, literal_at, parse_lifetime, parse_lit_str, punct_at, spec_lifetime, spec_lit_str, ParseError, ParseErrorView, Parsed, Token, TokenView};

verus! {

/// The trait that the generated conversion implements.
#[derive(Clone, Copy, Debug, PartialEq, Eq, Structural)]
pub enum ConverterType {
    From,
    TryFrom,
}

impl Default for ConverterType {
    /// `From` unless the attributes ask for `TryFrom`.
    fn default() -> (r: ConverterType)
        ensures
            r == ConverterType::From,
    {
        ConverterType::From
    }
}

/// The arguments of `#[bricke(..)]`.
///
/// - `converter`: the conversion to perform, `From` or `TryFrom`; `From` by
///   default;
/// - `source`: the name of the struct or enum the target is converted from;
/// - `error_kind`: the text of the error type of a `TryFrom` conversion;
/// - `lifetimes`: the lifetimes of the source type, as listed.
#[derive(Clone, Debug)]
pub struct BrickeAttributes {
    pub converter: ConverterType,
    pub source: Option<String>,
    pub error_kind: Option<String>,
    pub lifetimes: Option<LifetimeList>,
}

/// The lifetimes listed after `lifetimes =`, as they were written: their
/// names without apostrophe, and whether the list ends with `,`.
#[derive(Clone, Debug)]
pub struct LifetimeList {
    pub names: Vec<String>,
    pub trailing_comma: bool,
}

/// The mathematical value of a [`LifetimeList`].
pub struct LifetimeListView {
    pub names: Seq<Seq<char>>,
    pub trailing_comma: bool,
}

impl View for LifetimeList {
    type V = LifetimeListView;

    open spec fn view(&self) -> LifetimeListView {
        LifetimeListView { names: self.names.deep_view(), trailing_comma: self.trailing_comma }
    }
}

/// The mathematical value of [`BrickeAttributes`].
pub struct AttributesView {
    pub converter: ConverterType,
    pub source: Option<Seq<char>>,
    pub error_kind: Option<Seq<char>>,
    pub lifetimes: Option<LifetimeListView>,
}

impl View for BrickeAttributes {
    type V = AttributesView;

    open spec fn view(&self) -> AttributesView {
        AttributesView {
            converter: self.converter,
            source: match self.source {
                Some(s) => Some(s@),
                None => None,
            },
            error_kind: match self.error_kind {
                Some(s) => Some(s@),
                None => None,
            },
            lifetimes: match self.lifetimes {
                Some(l) => Some(l@),
                None => None,
            },
        }
    }
}

/// The attributes before any argument is read.
pub open spec fn default_attributes() -> AttributesView {
    AttributesView { converter: ConverterType::From, source: None, error_kind: None, lifetimes: None }
}

impl Default for BrickeAttributes {
    fn default() -> (r: BrickeAttributes)
        ensures
            r@ == default_attributes(),
    {
        BrickeAttributes { converter: ConverterType::From, source: None, error_kind: None, lifetimes: None }
    }
}

/// The path that names a nested attribute: `a`, `a::b`, `::a`, ...
#[derive(Clone, Debug)]
pub struct MetaPath {
    pub leading_colon: bool,
    pub segments: Vec<String>,
}

/// The mathematical value of a [`MetaPath`].
pub struct MetaPathView {
    pub leading_colon: bool,
    pub segments: Seq<Seq<char>>,
}

impl View for MetaPath {
    type V = MetaPathView;

    open spec fn view(&self) -> MetaPathView {
        MetaPathView { leading_colon: self.leading_colon, segments: self.segments.deep_view() }
    }
}

/// Reads the segments after the first one: `::` followed by an identifier,
/// as long as `::` comes.
pub open spec fn spec_path_tail(t: Seq<TokenView>, k: int, segs: Seq<Seq<char>>) -> Parsed<Seq<Seq<char>>>
    decreases t.len() - k,
{
    if colon2_at(t, k) {
        if k + 2 < t.len() && t[k + 2] is Ident {
            spec_path_tail(t, k + 3, segs.push(t[k + 2]->Ident_0))
        } else {
            Err(ParseErrorView::ExpectedIdent)
        }
    } else {
        Ok((segs, k))
    }
}

/// Reads the path of a nested attribute at `i`: an optional leading `::`,
/// an identifier (keywords included), then `::` and an identifier, repeated.
pub open spec fn spec_meta_path(t: Seq<TokenView>, i: int) -> Parsed<MetaPathView> {
    let lead = colon2_at(t, i);
    let j = if lead { i + 2 } else { i };
    if 0 <= j < t.len() && t[j] is Ident {
        match spec_path_tail(t, j + 1, seq![t[j]->Ident_0]) {
            Ok((segs, k)) => Ok((MetaPathView { leading_colon: lead, segments: segs }, k)),
            Err(e) => Err(e),
        }
    } else if !(0 <= j < t.len()) {
        Err(ParseErrorView::ExpectedNestedAttribute)
    } else if literal_at(t, j) {
        Err(ParseErrorView::UnexpectedLiteral)
    } else {
        Err(ParseErrorView::UnexpectedToken)
    }
}

proof fn lemma_path_tail_advances(t: Seq<TokenView>, k: int, segs: Seq<Seq<char>>)
    ensures
        spec_path_tail(t, k, segs) matches Ok((_, j)) ==> j >= k,
    decreases t.len() - k,
{
    if colon2_at(t, k) && k + 2 < t.len() && t[k + 2] is Ident {
        lemma_path_tail_advances(t, k + 3, segs.push(t[k + 2]->Ident_0));
    }
}

/// A path that was read takes at least one token.
pub proof fn lemma_meta_path_advances(t: Seq<TokenView>, i: int)
    requires
        0 <= i,
    ensures
        spec_meta_path(t, i) matches Ok((_, j)) ==> i < j <= t.len(),
{
    let lead = colon2_at(t, i);
    let j = if lead { i + 2 } else { i };
    if 0 <= j < t.len() && t[j] is Ident {
        lemma_path_tail_advances(t, j + 1, seq![t[j]->Ident_0]);
        lemma_path_tail_bounded(t, j + 1, seq![t[j]->Ident_0]);
    }
}

proof fn lemma_path_tail_bounded(t: Seq<TokenView>, k: int, segs: Seq<Seq<char>>)
    requires
        k <= t.len(),
    ensures
        spec_path_tail(t, k, segs) matches Ok((_, j)) ==> j <= t.len(),
    decreases t.len() - k,
{
    if colon2_at(t, k) && k + 2 < t.len() && t[k + 2] is Ident {
        lemma_path_tail_bounded(t, k + 3, segs.push(t[k + 2]->Ident_0));
    }
}

/// Reads a path of a nested attribute at `i`.
pub fn parse_meta_path(tokens: &Vec<Token>, i: usize) -> (r: Result<(MetaPath, usize), ParseError>)
    requires
        i <= tokens.len(),
    ensures
        agrees(r, spec_meta_path(tokens.deep_view(), i as int), |a: MetaPath, b: MetaPathView| a@ == b),
{
    let ghost t = tokens.deep_view();
    let lead = is_colon2(tokens, i);
    let j = if lead { i + 2 } else { i };
    if j < tokens.len() {
        if let Token::Ident(first) = &tokens[j] {
            let mut segments: Vec<String> = Vec::new();
            segments.push(first.clone());
            let mut k = j + 1;
            assert(segments.deep_view() =~= seq![t[j as int]->Ident_0]);
            while is_colon2(tokens, k)
                invariant
                    t == tokens.deep_view(),
                    k <= tokens.len(),
                    lead == colon2_at(t, i as int),
                    j == if lead { i + 2 } else { i as int },
                    j < tokens.len(),
                    t[j as int] is Ident,
                    first@ == t[j as int]->Ident_0,
                    spec_path_tail(t, j + 1, seq![t[j as int]->Ident_0]) == spec_path_tail(t, k as int, segments.deep_view()),
                decreases tokens.len() - k,
            {
                if k + 2 < tokens.len() {
                    if let Token::Ident(s) = &tokens[k + 2] {
                        let ghost before = segments.deep_view();
                        segments.push(s.clone());
                        assert(segments.deep_view() =~= before.push(t[k + 2]->Ident_0));
                        k = k + 3;
                        continue;
                    }
                }
                return Err(ParseError::ExpectedIdent);
            }
            let path = MetaPath { leading_colon: lead, segments };
            return Ok((path, k));
        }
    }
    if j >= tokens.len() {
        Err(ParseError::ExpectedNestedAttribute)
    } else if is_literal(tokens, j) {
        Err(ParseError::UnexpectedLiteral)
    } else {
        Err(ParseError::UnexpectedToken)
    }
}

/// Reads lifetimes separated by `,` up to the end of the tokens, after the
/// names `acc` read so far; a trailing `,` is allowed and kept. The end is
/// reached right after a `,` exactly when some name came before it.
pub open spec fn spec_lifetimes(t: Seq<TokenView>, k: int, acc: Seq<Seq<char>>) -> Parsed<LifetimeListView>
    decreases t.len() - k,
{
    if k >= t.len() {
        Ok((LifetimeListView { names: acc, trailing_comma: acc.len() > 0 }, k))
    } else {
        match spec_lifetime(t, k) {
            Err(e) => Err(e),
            Ok((name, k2)) => if k2 >= t.len() {
                Ok((LifetimeListView { names: acc.push(name), trailing_comma: false }, k2))
            } else if punct_at(t, k2, ',') {
                spec_lifetimes(t, k2 + 1, acc.push(name))
            } else {
                Err(ParseErrorView::ExpectedComma)
            },
        }
    }
}

proof fn lemma_lifetimes_advance(t: Seq<TokenView>, k: int, acc: Seq<Seq<char>>)
    ensures
        spec_lifetimes(t, k, acc) matches Ok((_, j)) ==> j >= k,
    decreases t.len() - k,
{
    if k < t.len() {
        if let Ok((name, k2)) = spec_lifetime(t, k) {
            if k2 < t.len() && punct_at(t, k2, ',') {
                lemma_lifetimes_advance(t, k2 + 1, acc.push(name));
            }
        }
    }
}

/// One nested attribute of `#[bricke(..)]`, as `syn` hands it over: its
/// path, the tokens of the whole argument list, and the position right
/// after the path.
pub struct ParseNestedMeta<'a> {
    pub path: MetaPath,
    pub input: &'a Vec<Token>,
    pub pos: usize,
}

/// The key of a nested attribute, when its path is a single identifier.
pub open spec fn path_ident(p: MetaPathView) -> Option<Seq<char>> {
    if !p.leading_colon && p.segments.len() == 1 {
        Some(p.segments[0])
    } else {
        None
    }
}

/// Reads the value of the nested attribute whose path is `path`, the value
/// starting at `i`, into `a`:
/// - `converter = "TryFrom"` asks for `TryFrom`; any other string for `From`;
/// - `source = "Name"` names the source type; with no string after `=` the
///   source is left as it was;
/// - `try_error_type = "Type"` gives the error type;
/// - `lifetimes = 'a, 'b` gives the lifetimes, up to the end of the list;
/// - any other key is refused.
pub open spec fn spec_parse_meta(a: AttributesView, path: MetaPathView, t: Seq<TokenView>, i: int) -> Parsed<AttributesView> {
    match path_ident(path) {
        None => Err(ParseErrorView::UnknownAttribute),
        Some(name) => if name == "converter"@ {
            if !punct_at(t, i, '=') {
                Err(ParseErrorView::ExpectedEq)
            } else {
                match spec_lit_str(t, i + 1) {
                    Err(e) => Err(e),
                    Ok((v, k)) => Ok((AttributesView {
                        converter: if v == "TryFrom"@ { ConverterType::TryFrom } else { ConverterType::From },
                        ..a
                    }, k)),
                }
            }
        } else if name == "source"@ {
            if !punct_at(t, i, '=') {
                Err(ParseErrorView::ExpectedEq)
            } else {
                match spec_lit_str(t, i + 1) {
                    Err(_) => Ok((a, i + 1)),
                    Ok((v, k)) => Ok((AttributesView { source: Some(v), ..a }, k)),
                }
            }
        } else if name == "try_error_type"@ {
            if !punct_at(t, i, '=') {
                Err(ParseErrorView::ExpectedEq)
            } else {
                match spec_lit_str(t, i + 1) {
                    Err(e) => Err(e),
                    Ok((v, k)) => Ok((AttributesView { error_kind: Some(v), ..a }, k)),
                }
            }
        } else if name == "lifetimes"@ {
            if !punct_at(t, i, '=') {
                Err(ParseErrorView::ExpectedEq)
            } else {
                match spec_lifetimes(t, i + 1, Seq::empty()) {
                    Err(e) => Err(e),
                    Ok((list, k)) => Ok((AttributesView { lifetimes: Some(list), ..a }, k)),
                }
            }
        } else {
            Err(ParseErrorView::UnknownNamedAttribute(name))
        },
    }
}

/// Reading a value never moves backwards.
pub proof fn lemma_parse_meta_advances(a: AttributesView, path: MetaPathView, t: Seq<TokenView>, i: int)
    ensures
        spec_parse_meta(a, path, t, i) matches Ok((_, k)) ==> k >= i,
{
    if path_ident(path) is Some && path_ident(path).unwrap() == "lifetimes"@ {
        lemma_lifetimes_advance(t, i + 1, Seq::empty());
    }
}

/// The value of `source = "value"` at `i` when that value is not an
/// identifier: reading it would make an identifier of it.
pub open spec fn refused_source(path: MetaPathView, t: Seq<TokenView>, i: int) -> Option<Seq<char>> {
    if path_ident(path) == Some("source"@) && punct_at(t, i, '=') {
        match spec_lit_str(t, i + 1) {
            Ok((v, _)) => if valid_ident(v) { None } else { Some(v) },
            Err(_) => None,
        }
    } else {
        None
    }
}

/// Reads the nested attributes from position `i` on, each followed by `,`
/// or by the end of the tokens; a `source` that is not an identifier is
/// refused where it is read.
pub open spec fn spec_nested(a: AttributesView, t: Seq<TokenView>, i: int) -> Result<AttributesView, ParseErrorView>
    decreases t.len() - i,
{
    if i < 0 {
        Err(ParseErrorView::ExpectedNestedAttribute)
    } else {
        match spec_meta_path(t, i) {
            Err(e) => Err(e),
            Ok((p, j)) => match refused_source(p, t, j) {
                Some(v) => Err(ParseErrorView::InvalidIdent(v)),
                None => match spec_parse_meta(a, p, t, j) {
                    Err(e) => Err(e),
                    Ok((a2, k)) => if k >= t.len() {
                        Ok(a2)
                    } else if !punct_at(t, k, ',') {
                        Err(ParseErrorView::ExpectedComma)
                    } else if k + 1 >= t.len() {
                        Ok(a2)
                    } else {
                        proof {
                            lemma_meta_path_advances(t, i);
                            lemma_parse_meta_advances(a, p, t, j);
                        }
                        spec_nested(a2, t, k + 1)
                    },
                },
            },
        }
    }
}

/// Reads the whole argument list of `#[bricke(..)]`, starting from the
/// default attributes; an empty list gives the default.
pub open spec fn spec_parse_args(t: Seq<TokenView>) -> Result<AttributesView, ParseErrorView> {
    if t.len() == 0 {
        Ok(default_attributes())
    } else {
        spec_nested(default_attributes(), t, 0)
    }
}

/// Finds the value of a `source` that is not an identifier.
fn source_refusal(meta: &ParseNestedMeta) -> (r: Option<String>)
    requires
        meta.pos <= meta.input.len(),
    ensures
        match r {
            Some(v) => refused_source(meta.path@, meta.input.deep_view(), meta.pos as int) == Some(v@),
            None => refused_source(meta.path@, meta.input.deep_view(), meta.pos as int) is None,
        },
{
    if meta.path.leading_colon || meta.path.segments.len() != 1 || !str_eq(meta.path.segments[0].as_str(), "source") {
        return None;
    }
    if !is_punct(meta.input, meta.pos, '=') {
        return None;
    }
    match parse_lit_str(meta.input, meta.pos + 1) {
        Ok((v, _, _)) => if is_valid_ident(v.as_str()) { None } else { Some(v) },
        Err(_) => None,
    }
}

/// Every source that reading gives is an identifier.
proof fn lemma_nested_source_valid(a: AttributesView, t: Seq<TokenView>, i: int)
    requires
        a.source matches Some(v) ==> valid_ident(v),
    ensures
        spec_nested(a, t, i) matches Ok(b) ==> (b.source matches Some(v) ==> valid_ident(v)),
    decreases t.len() - i,
{
    if i >= 0 {
        if let Ok((p, j)) = spec_meta_path(t, i) {
            if refused_source(p, t, j) is None {
                if let Ok((a2, k)) = spec_parse_meta(a, p, t, j) {
                    if k < t.len() && punct_at(t, k, ',') && k + 1 < t.len() {
                        lemma_meta_path_advances(t, i);
                        lemma_parse_meta_advances(a, p, t, j);
                        lemma_nested_source_valid(a2, t, k + 1);
                    }
                }
            }
        }
    }
}

/// The source of attributes that were read is an identifier.
pub proof fn lemma_parsed_source_valid(t: Seq<TokenView>)
    ensures
        spec_parse_args(t) matches Ok(a) ==> (a.source matches Some(v) ==> valid_ident(v)),
{
    if t.len() > 0 {
        lemma_nested_source_valid(default_attributes(), t, 0);
    }
}

impl BrickeAttributes {
    /// Reads the value of one nested attribute and returns the position
    /// after it. On an error the attributes are left as they were. A
    /// `source` must name an identifier.
    pub fn parse(&mut self, meta: &ParseNestedMeta) -> (r: Result<usize, ParseError>)
        requires
            meta.pos <= meta.input.len(),
            refused_source(meta.path@, meta.input.deep_view(), meta.pos as int) is None,
        ensures
            match (r, spec_parse_meta(old(self)@, meta.path@, meta.input.deep_view(), meta.pos as int)) {
                (Ok(k), Ok((a, j))) => final(self)@ == a && k as int == j,
                (Err(e), Err(f)) => e@ == f && final(self)@ == old(self)@,
                _ => false,
            },
    {
        let tokens = meta.input;
        let i = meta.pos;
        if meta.path.leading_colon || meta.path.segments.len() != 1 {
            return Err(ParseError::UnknownAttribute);
        }
        let ident = meta.path.segments[0].as_str();
        if str_eq(ident, "converter") {
            if !is_punct(tokens, i, '=') {
                return Err(ParseError::ExpectedEq);
            }
            let (converter, _, k) = match parse_lit_str(tokens, i + 1) {
                Ok(v) => v,
                Err(e) => return Err(e),
            };
            self.converter = if str_eq(converter.as_str(), "TryFrom") {
                ConverterType::TryFrom
            } else {
                ConverterType::From
            };
            Ok(k)
        } else if str_eq(ident, "source") {
            if !is_punct(tokens, i, '=') {
                return Err(ParseError::ExpectedEq);
            }
            match parse_lit_str(tokens, i + 1) {
                Ok((src, _, k)) => {
                    self.source = Some(src);
                    Ok(k)
                },
                Err(_) => Ok(i + 1),
            }
        } else if str_eq(ident, "try_error_type") {
            if !is_punct(tokens, i, '=') {
                return Err(ParseError::ExpectedEq);
            }
            let (kind, _, k) = match parse_lit_str(tokens, i + 1) {
                Ok(v) => v,
                Err(e) => return Err(e),
            };
            self.error_kind = Some(kind);
            Ok(k)
        } else if str_eq(ident, "lifetimes") {
            if !is_punct(tokens, i, '=') {
                return Err(ParseError::ExpectedEq);
            }
            let (list, k) = match parse_lifetimes(tokens, i + 1) {
                Ok(v) => v,
                Err(e) => return Err(e),
            };
            self.lifetimes = Some(list);
            Ok(k)
        } else {
            Err(ParseError::UnknownNamedAttribute(meta.path.segments[0].clone()))
        }
    }

    /// Reads the whole argument list of `#[bricke(..)]`.
    pub fn parse_args(tokens: &Vec<Token>) -> (r: Result<BrickeAttributes, ParseError>)
        ensures
            match (r, spec_parse_args(tokens.deep_view())) {
                (Ok(a), Ok(b)) => a@ == b,
                (Err(e), Err(f)) => e@ == f,
                _ => false,
            },
    {
        let ghost t = tokens.deep_view();
        let mut attrs = BrickeAttributes::default();
        if tokens.len() == 0 {
            return Ok(attrs);
        }
        let mut i: usize = 0;
        loop
            invariant
                t == tokens.deep_view(),
                i < tokens.len(),
                spec_parse_args(t) == spec_nested(attrs@, t, i as int),
            decreases tokens.len() - i,
        {
            let (path, j) = match parse_meta_path(tokens, i) {
                Ok(v) => v,
                Err(e) => return Err(e),
            };
            proof {
                lemma_meta_path_advances(t, i as int);
            }
            let ghost before = attrs@;
            let meta = ParseNestedMeta { path, input: tokens, pos: j };
            match source_refusal(&meta) {
                Some(v) => return Err(ParseError::InvalidIdent(v)),
                None => {},
            }
            let k = match attrs.parse(&meta) {
                Ok(k) => k,
                Err(e) => return Err(e),
            };
            proof {
                lemma_parse_meta_advances(before, meta.path@, t, j as int);
            }
            if k >= tokens.len() {
                return Ok(attrs);
            }
            if !is_punct(tokens, k, ',') {
                return Err(ParseError::ExpectedComma);
            }
            if k + 1 >= tokens.len() {
                return Ok(attrs);
            }
            i = k + 1;
        }
    }
}

/// Reads lifetimes separated by `,` from `i` to the end of the tokens.
fn parse_lifetimes(tokens: &Vec<Token>, i: usize) -> (r: Result<(LifetimeList, usize), ParseError>)
    requires
        i <= tokens.len(),
    ensures
        agrees(r, spec_lifetimes(tokens.deep_view(), i as int, Seq::empty()), |a: LifetimeList, b: LifetimeListView| a@ == b),
{
    let ghost t = tokens.deep_view();
    let mut names: Vec<String> = Vec::new();
    let mut k = i;
    assert(names.deep_view() =~= Seq::<Seq<char>>::empty());
    loop
        invariant
            t == tokens.deep_view(),
            k <= tokens.len(),
            spec_lifetimes(t, i as int, Seq::empty()) == spec_lifetimes(t, k as int, names.deep_view()),
        decreases tokens.len() - k,
    {
        if k >= tokens.len() {
            let trailing_comma = names.len() > 0;
            return Ok((LifetimeList { names, trailing_comma }, k));
        }
        let (name, k2) = match parse_lifetime(tokens, k) {
            Ok(v) => v,
            Err(e) => return Err(e),
        };
        let ghost before = names.deep_view();
        names.push(name);
        assert(names.deep_view() =~= before.push(t[k + 1]->Ident_0));
        if k2 >= tokens.len() {
            return Ok((LifetimeList { names, trailing_comma: false }, k2));
        }
        if !is_punct(tokens, k2, ',') {
            return Err(ParseError::ExpectedComma);
        }
        k = k2 + 1;
    }
}

/// A list of lifetimes: each name behind an apostrophe, separated by `, `.
pub open spec fn lifetime_list(names: Seq<Seq<char>>) -> Seq<char> {
    join(prefixed(names, "'"@), ", "@)
}

/// The generics written after `impl` and after the source type: the
/// lifetimes of the attributes in angle brackets, with the trailing `,`
/// where the list was written with one, or nothing when the attributes give
/// none.
pub open spec fn source_generics(lifetimes: Option<LifetimeListView>) -> Seq<char> {
    match lifetimes {
        Some(l) => "<"@ + lifetime_list(l.names) + (if l.trailing_comma { ","@ } else { Seq::empty() }) + ">"@,
        None => Seq::empty(),
    }
}

/// The generics written after the target type: its lifetimes in angle
/// brackets, or nothing when it has none.
pub open spec fn target_generics(names: Seq<Seq<char>>) -> Seq<char> {
    if names.len() > 0 {
        "<"@ + lifetime_list(names) + ">"@
    } else {
        Seq::empty()
    }
}

/// The value that the conversion builds from its argument `arg`: a struct
/// expression `Self { .. }` over the field entries, or a `match` over the
/// variant arms.
pub open spec fn conversion_body(fields: Seq<Seq<char>>, supported_type: SupportedType) -> Seq<char> {
    match supported_type {
        SupportedType::Struct => "Self { "@ + join(fields, ", "@) + " }"@,
        SupportedType::Enum => "match arg { "@ + join(fields, ", "@) + " }"@,
    }
}

/// What the conversion template needs of the attributes: a source type
/// whose name is an identifier and, for `TryFrom`, an error type that reads
/// as a type.
pub open spec fn template_ready(a: AttributesView) -> bool {
    &&& a.source is Some
    &&& valid_ident(a.source.unwrap())
    &&& a.converter == ConverterType::TryFrom ==> (a.error_kind is Some && reads_as_type(
        a.error_kind.unwrap(),
    ))
}

/// The `impl` block of the conversion from the source type to `target`.
pub open spec fn spec_conversion_template(
    a: AttributesView,
    target: Seq<char>,
    fields: Seq<Seq<char>>,
    supported_type: SupportedType,
    target_lifetimes: Seq<Seq<char>>,
) -> Seq<char> {
    let src = a.source.unwrap();
    let sg = source_generics(a.lifetimes);
    let tg = target_generics(target_lifetimes);
    let body = conversion_body(fields, supported_type);
    match a.converter {
        ConverterType::From => "impl"@ + sg + " From<"@ + src + sg + "> for "@ + target + tg
            + " { fn from(arg: "@ + src + sg + ") -> Self { "@ + body + " } }"@,
        ConverterType::TryFrom => "impl"@ + sg + " TryFrom<"@ + src + sg + "> for "@ + target + tg
            + " { type Error = "@ + a.error_kind.unwrap() + "\n; fn try_from(arg: "@
            + src + sg + ") -> Result<Self, Self::Error> { Ok("@ + body + ") } }"@,
    }
}

impl BrickeAttributes {
    /// Creates the conversion template for the target item (struct or enum).
    ///
    /// * `target_ident` - the name of the target struct or enum
    /// * `transform_fields` - the transformed fields, or the arms of the match
    /// * `supported_type` - whether the target is a struct or an enum
    /// * `target_lifetimes` - the lifetime names of the target
    pub fn generate_conversion_template(
        &self,
        target_ident: &str,
        transform_fields: &Vec<String>,
        supported_type: SupportedType,
        target_lifetimes: &Vec<String>,
    ) -> (r: String)
        requires
            template_ready(self@),
        ensures
            r@ == spec_conversion_template(
                self@,
                target_ident@,
                transform_fields.deep_view(),
                supported_type,
                target_lifetimes.deep_view(),
            ),
    {
        let source = match &self.source {
            Some(s) => s.as_str(),
            None => "",
        };
        let mut sg = String::new();
        if let Some(l) = &self.lifetimes {
            sg.append("<");
            push_joined_prefixed(&mut sg, &l.names, "'", ", ");
            if l.trailing_comma {
                sg.append(",");
            }
            sg.append(">");
        }
        let mut tg = String::new();
        if target_lifetimes.len() > 0 {
            tg.append("<");
            push_joined_prefixed(&mut tg, target_lifetimes, "'", ", ");
            tg.append(">");
        }
        let mut body = String::new();
        match supported_type {
            SupportedType::Struct => body.append("Self { "),
            SupportedType::Enum => body.append("match arg { "),
        }
        push_joined(&mut body, transform_fields, ", ");
        body.append(" }");
        let mut out = String::new();
        out.append("impl");
        out.append(sg.as_str());
        match self.converter {
            ConverterType::From => {
                out.append(" From<");
                out.append(source);
                out.append(sg.as_str());
                out.append("> for ");
                out.append(target_ident);
                out.append(tg.as_str());
                out.append(" { fn from(arg: ");
                out.append(source);
                out.append(sg.as_str());
                out.append(") -> Self { ");
                out.append(body.as_str());
                out.append(" } }");
            },
            ConverterType::TryFrom => {
                let error_text = match &self.error_kind {
                    Some(e) => e.as_str(),
                    None => "",
                };
                out.append(" TryFrom<");
                out.append(source);
                out.append(sg.as_str());
                out.append("> for ");
                out.append(target_ident);
                out.append(tg.as_str());
                out.append(" { type Error = ");
                out.append(error_text);
                out.append("\n; fn try_from(arg: ");
                out.append(source);
                out.append(sg.as_str());
                out.append(") -> Result<Self, Self::Error> { Ok(");
                out.append(body.as_str());
                out.append(") } }");
            },
        }
        assert(out@ =~= spec_conversion_template(
            self@,
            target_ident@,
            transform_fields.deep_view(),
            supported_type,
            target_lifetimes.deep_view(),
        ));
        out
    }
}

} // verus!
