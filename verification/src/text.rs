//! Text helpers: comparison of strings and assembly of generated source text.
use vstd::prelude::*;

verus! {

/// Joins `parts` with `sep` between consecutive elements.
pub open spec fn join(parts: Seq<Seq<char>>, sep: Seq<char>) -> Seq<char>
    decreases parts.len(),
{
    if parts.len() == 0 {
        Seq::empty()
    } else if parts.len() == 1 {
        parts[0]
    } else {
        join(parts.drop_last(), sep) + sep + parts.last()
    }
}

/// Whether two string slices hold the same characters.
pub fn str_eq(a: &str, b: &str) -> (r: bool)
    ensures
        r == (a@ == b@),
{
    let n = a.unicode_len();
    let m = b.unicode_len();
    if n != m {
        return false;
    }
    let mut i: usize = 0;
    while i < n
        invariant
            n == a@.len(),
            m == b@.len(),
            n == m,
            i <= n,
            forall|j: int| 0 <= j < i ==> a@[j] == b@[j],
        decreases n - i,
    {
        if a.get_char(i) != b.get_char(i) {
            return false;
        }
        i = i + 1;
    }
    assert(a@ =~= b@);
    true
}

/// Puts `prefix` in front of every element of `parts`.
pub open spec fn prefixed(parts: Seq<Seq<char>>, prefix: Seq<char>) -> Seq<Seq<char>> {
    parts.map_values(|p: Seq<char>| prefix + p)
}

/// Appends `parts`, each behind `prefix` and separated by `sep`, to `out`.
pub fn push_joined_prefixed(out: &mut String, parts: &Vec<String>, prefix: &str, sep: &str)
    ensures
        final(out)@ == old(out)@ + join(prefixed(parts.deep_view(), prefix@), sep@),
{
    let ghost start = out@;
    let ghost views = prefixed(parts.deep_view(), prefix@);
    let mut i: usize = 0;
    while i < parts.len()
        invariant
            i <= parts.len(),
            views == prefixed(parts.deep_view(), prefix@),
            out@ == start + join(views.take(i as int), sep@),
        decreases parts.len() - i,
    {
        if i != 0 {
            out.append(sep);
        }
        out.append(prefix);
        out.append(parts[i].as_str());
        assert(views.take(i + 1).drop_last() =~= views.take(i as int));
        assert(views[i as int] == prefix@ + parts.deep_view()[i as int]);
        i = i + 1;
    }
    assert(views.take(parts.len() as int) =~= views);
}

/// Appends `parts`, separated by `sep`, to `out`.
pub fn push_joined(out: &mut String, parts: &Vec<String>, sep: &str)
    ensures
        final(out)@ == old(out)@ + join(parts.deep_view(), sep@),
{
    let ghost start = out@;
    let ghost views = parts.deep_view();
    let mut i: usize = 0;
    while i < parts.len()
        invariant
            i <= parts.len(),
            views == parts.deep_view(),
            out@ == start + join(views.take(i as int), sep@),
        decreases parts.len() - i,
    {
        if i != 0 {
            out.append(sep);
        }
        out.append(parts[i].as_str());
        assert(views.take(i + 1).drop_last() =~= views.take(i as int));
        i = i + 1;
    }
    assert(views.take(parts.len() as int) =~= views);
}

} // verus!
